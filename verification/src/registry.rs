//! The registry of projects, the global configuration and the files of the daemon.

use crate::decimal::{nat_value, parse_u32, within};
use crate::model::ApiError;
use crate::order::{
    comes_before, law_sorted_in_order, law_sorted_same_items, law_sorted_then_kept,
    lemma_before_irreflexive, lemma_before_total, lemma_before_transitive, lemma_placed_inserts,
    passed, placed, stable_sorted, strict_weak, text_before,
};
use crate::paths::{alike, join, path_in, same_path};
use crate::text::{join_from, joined, text_eq, texts, trim, trimmed};
use vstd::prelude::*;
use vstd::string::*;

verus! {

/// The directory of the global state: `AUTOPILOT_HOME` where it is set, else `.autopilot` in the
/// home directory.
pub fn global_dir(autopilot_home: Option<String>, home: &str) -> (r: String)
    ensures
        r@ == (match autopilot_home {
            Some(dir) => dir@,
            None => path_in(home@, ".autopilot"@),
        }),
{
    match autopilot_home {
        Some(dir) => dir,
        None => join(home, ".autopilot"),
    }
}

/// The registry of projects.
pub fn projects_file(global: &str) -> (r: String)
    ensures
        r@ == path_in(global@, "projects.yaml"@),
{
    join(global, "projects.yaml")
}

/// The global configuration.
pub fn config_file(global: &str) -> (r: String)
    ensures
        r@ == path_in(global@, "config.yaml"@),
{
    join(global, "config.yaml")
}

pub fn pid_file(global: &str) -> (r: String)
    ensures
        r@ == path_in(global@, "daemon.pid"@),
{
    join(global, "daemon.pid")
}

/// The file whose existence asks the daemon to stop.
pub fn stop_file(global: &str) -> (r: String)
    ensures
        r@ == path_in(global@, "STOP"@),
{
    join(global, "STOP")
}

pub fn status_file(global: &str) -> (r: String)
    ensures
        r@ == path_in(global@, "status.json"@),
{
    join(global, "status.json")
}

pub fn daemon_log_file(global: &str) -> (r: String)
    ensures
        r@ == path_in(global@, "daemon.log"@),
{
    join(global, "daemon.log")
}

pub fn tg_offset_file(global: &str) -> (r: String)
    ensures
        r@ == path_in(global@, "telegram.offset"@),
{
    join(global, "telegram.offset")
}

/// A project under control.
#[derive(Debug, Clone)]
pub struct ProjectEntry {
    pub name: String,
    pub dir: String,
    /// The larger, the earlier the project is looked at.
    pub priority: i64,
    pub paused: bool,
}

impl ProjectEntry {
    pub open spec fn autopilot_path(&self) -> Seq<char> {
        path_in(self.dir@, "autopilot"@)
    }

    pub fn autopilot_dir(&self) -> (r: String)
        ensures
            r@ == self.autopilot_path(),
    {
        join(self.dir.as_str(), "autopilot")
    }

    pub open spec fn logs_path(&self) -> Seq<char> {
        path_in(self.autopilot_path(), "logs"@)
    }

    pub fn logs_dir(&self) -> (r: String)
        ensures
            r@ == self.logs_path(),
    {
        join(self.autopilot_dir().as_str(), "logs")
    }

    pub fn state_dir(&self) -> (r: String)
        ensures
            r@ == path_in(self.autopilot_path(), "state"@),
    {
        join(self.autopilot_dir().as_str(), "state")
    }
}

/// Whether `a` is looked at before `b`: a larger priority first, then by name.
pub open spec fn runs_before(a: ProjectEntry, b: ProjectEntry) -> bool {
    a.priority > b.priority || (a.priority == b.priority && text_before(a.name@, b.name@))
}

/// The order in which projects are looked at.
pub open spec fn scan_order() -> spec_fn(ProjectEntry, ProjectEntry) -> bool {
    |a: ProjectEntry, b: ProjectEntry| runs_before(a, b)
}

/// The entries behind a list of references.
pub open spec fn entries(v: Seq<&ProjectEntry>) -> Seq<ProjectEntry> {
    v.map_values(|p: &ProjectEntry| *p)
}

/// The names of entries.
pub open spec fn entry_names(s: Seq<ProjectEntry>) -> Seq<Seq<char>> {
    s.map_values(|p: ProjectEntry| p.name@)
}

/// The place, from `i` on, of the first project called `name`.
pub open spec fn place_from(projects: Seq<ProjectEntry>, name: Seq<char>, i: int) -> Option<int>
    decreases projects.len() - i,
{
    if i < 0 || i >= projects.len() {
        None
    } else if projects[i].name@ == name {
        Some(i)
    } else {
        place_from(projects, name, i + 1)
    }
}

/// What the place of a name means.
pub proof fn lemma_place(projects: Seq<ProjectEntry>, name: Seq<char>, i: int)
    requires
        0 <= i <= projects.len(),
    ensures
        match place_from(projects, name, i) {
            Some(k) => {
                &&& i <= k < projects.len()
                &&& projects[k].name@ == name
                &&& forall|j: int| i <= j < k ==> (#[trigger] projects[j]).name@ != name
            },
            None => forall|j: int|
                i <= j < projects.len() ==> (#[trigger] projects[j]).name@ != name,
        },
    decreases projects.len() - i,
{
    if i < projects.len() && projects[i].name@ != name {
        lemma_place(projects, name, i + 1);
    }
}

/// The place, from `i` on, of the first project in the directory `dir` that is not called `name`.
pub open spec fn other_name_from(
    projects: Seq<ProjectEntry>,
    name: Seq<char>,
    dir: Seq<char>,
    i: int,
) -> Option<int>
    decreases projects.len() - i,
{
    if i < 0 || i >= projects.len() {
        None
    } else if alike(projects[i].dir@, dir) && projects[i].name@ != name {
        Some(i)
    } else {
        other_name_from(projects, name, dir, i + 1)
    }
}

proof fn lemma_other_name(projects: Seq<ProjectEntry>, name: Seq<char>, dir: Seq<char>, i: int)
    requires
        0 <= i <= projects.len(),
    ensures
        other_name_from(projects, name, dir, i) is None ==> forall|j: int|
            i <= j < projects.len() && (#[trigger] projects[j]).name@ != name ==> !alike(
                projects[j].dir@,
                dir,
            ),
    decreases projects.len() - i,
{
    if i < projects.len() && other_name_from(projects, name, dir, i) is None {
        lemma_other_name(projects, name, dir, i + 1);
    }
}

/// Whether no two projects share their name or their directory.
pub open spec fn distinct(projects: Seq<ProjectEntry>) -> bool {
    forall|i: int, j: int|
        0 <= i < projects.len() && 0 <= j < projects.len() && i != j
            ==> #[trigger] projects[i].name@ != #[trigger] projects[j].name@ && !alike(
            projects[i].dir@,
            projects[j].dir@,
        )
}

/// The projects that are not called `name`, as a choice.
pub open spec fn not_called(name: Seq<char>) -> spec_fn(ProjectEntry) -> bool {
    |p: ProjectEntry| p.name@ != name
}

/// What is said where there is no project called `name`.
pub open spec fn not_found(name: Seq<char>) -> Seq<char> {
    "проект «"@ + name + "» не найден"@
}

fn not_found_error(name: &str) -> (r: ApiError)
    ensures
        r.0@ == not_found(name@),
{
    let mut msg = "проект «".to_owned();
    msg.append(name);
    msg.append("» не найден");
    ApiError(msg)
}

fn place_into<'a>(v: &mut Vec<&'a ProjectEntry>, p: &'a ProjectEntry)
    ensures
        entries(final(v)@) == placed(entries(old(v)@), *p, scan_order()),
{
    let n: usize = v.len();
    let mut k: usize = n;
    let ghost all = entries(v@);
    assert(all.take(n as int) =~= all);
    proof {
        lemma_placed_inserts(all, *p, scan_order());
    }
    while k > 0
        invariant
            k <= n,
            n == v@.len(),
            all == entries(v@),
            n - k + passed(all.take(k as int), *p, scan_order()) == passed(all, *p, scan_order()),
        ensures
            k == n - passed(all, *p, scan_order()),
        decreases k,
    {
        let q: &ProjectEntry = v[k - 1];
        assert(all.take(k as int).last() == *q);
        if !(p.priority > q.priority || (p.priority == q.priority && comes_before(
            p.name.as_str(),
            q.name.as_str(),
        ))) {
            assert(passed(all.take(k as int), *p, scan_order()) == 0);
            break;
        }
        assert(all.take(k as int).drop_last() =~= all.take(k - 1));
        k -= 1;
    }
    v.insert(k, p);
    assert(entries(v@) =~= all.insert(k as int, *p));
}

/// All projects in the order in which they are looked at.
pub open spec fn scanned(projects: Seq<ProjectEntry>) -> Seq<ProjectEntry> {
    stable_sorted(projects, scan_order())
}

/// The projects that are not paused.
pub open spec fn active(projects: Seq<ProjectEntry>) -> Seq<ProjectEntry> {
    projects.filter(|p: ProjectEntry| !p.paused)
}

proof fn lemma_active_step(projects: Seq<ProjectEntry>, i: int)
    requires
        0 <= i < projects.len(),
    ensures
        active(projects.take(i + 1)) == if projects[i].paused {
            active(projects.take(i))
        } else {
            active(projects.take(i)).push(projects[i])
        },
{
    reveal(Seq::filter);
    let next = projects.take(i + 1);
    assert(next.drop_last() =~= projects.take(i));
    assert(next.last() == projects[i]);
}

proof fn lemma_sorted_push(s: Seq<ProjectEntry>, x: ProjectEntry)
    ensures
        scanned(s.push(x)) == placed(scanned(s), x, scan_order()),
{
    assert(s.push(x).drop_last() =~= s);
}

#[derive(Debug)]
pub struct Registry {
    pub projects: Vec<ProjectEntry>,
}

impl Default for Registry {
    fn default() -> (r: Registry)
        ensures
            r.projects@ == Seq::<ProjectEntry>::empty(),
    {
        Registry { projects: Vec::new() }
    }
}

impl Registry {
    /// The place of the first project called `name`.
    pub open spec fn place(&self, name: Seq<char>) -> Option<int> {
        place_from(self.projects@, name, 0)
    }

    fn index(&self, name: &str) -> (r: Option<usize>)
        ensures
            match r {
                Some(i) => self.place(name@) == Some(i as int) && i < self.projects@.len(),
                None => self.place(name@) is None,
            },
    {
        let mut i: usize = 0;
        while i < self.projects.len()
            invariant
                i <= self.projects@.len(),
                self.place(name@) == place_from(self.projects@, name@, i as int),
            decreases self.projects@.len() - i,
        {
            if text_eq(self.projects[i].name.as_str(), name) {
                return Some(i);
            }
            i += 1;
        }
        None
    }

    /// The first project called `name`.
    pub fn find(&self, name: &str) -> (r: Option<&ProjectEntry>)
        ensures
            match r {
                Some(p) => self.place(name@) is Some && *p == self.projects@[self.place(name@)->0],
                None => self.place(name@) is None,
            },
    {
        match self.index(name) {
            Some(i) => Some(&self.projects[i]),
            None => None,
        }
    }

    /// The first project called `name`, to be changed.
    pub fn find_mut(&mut self, name: &str) -> (r: Option<&mut ProjectEntry>)
        ensures
            match r {
                Some(p) => {
                    &&& old(self).place(name@) is Some
                    &&& *p == old(self).projects@[old(self).place(name@)->0]
                    &&& final(self).projects@ == old(self).projects@.update(
                        old(self).place(name@)->0,
                        *final(p),
                    )
                },
                None => old(self).place(name@) is None && *final(self) == *old(self),
            },
    {
        match self.index(name) {
            Some(i) => Some(&mut self.projects[i]),
            None => None,
        }
    }

    /// The projects that are not paused, in the order in which the daemon looks at them: by
    /// falling priority, then by name.
    pub fn sorted_active(&self) -> (r: Vec<&ProjectEntry>)
        ensures
            entries(r@) == scanned(active(self.projects@)),
    {
        let mut out: Vec<&ProjectEntry> = Vec::new();
        let mut i: usize = 0;
        reveal(Seq::filter);
        assert(active(self.projects@.take(0)) =~= Seq::empty());
        assert(entries(out@) =~= scanned(Seq::empty()));
        while i < self.projects.len()
            invariant
                i <= self.projects@.len(),
                entries(out@) == scanned(active(self.projects@.take(i as int))),
            decreases self.projects@.len() - i,
        {
            let p = &self.projects[i];
            proof {
                lemma_active_step(self.projects@, i as int);
                lemma_sorted_push(active(self.projects@.take(i as int)), *p);
            }
            if !p.paused {
                place_into(&mut out, p);
            }
            i += 1;
        }
        assert(self.projects@.take(i as int) =~= self.projects@);
        out
    }

    /// All projects in the same order.
    pub fn sorted_all(&self) -> (r: Vec<&ProjectEntry>)
        ensures
            entries(r@) == scanned(self.projects@),
    {
        let mut out: Vec<&ProjectEntry> = Vec::new();
        let mut i: usize = 0;
        assert(entries(out@) =~= scanned(self.projects@.take(0)));
        while i < self.projects.len()
            invariant
                i <= self.projects@.len(),
                entries(out@) == scanned(self.projects@.take(i as int)),
            decreases self.projects@.len() - i,
        {
            let p = &self.projects[i];
            proof {
                lemma_sorted_push(self.projects@.take(i as int), *p);
                assert(self.projects@.take(i + 1) =~= self.projects@.take(i as int).push(*p));
            }
            place_into(&mut out, p);
            i += 1;
        }
        assert(self.projects@.take(i as int) =~= self.projects@);
        out
    }

    /// The names of all projects, in the same order.
    pub fn names(&self) -> (r: Vec<String>)
        ensures
            texts(r@) == entry_names(scanned(self.projects@)),
    {
        let all = self.sorted_all();
        let mut out: Vec<String> = Vec::new();
        let mut i: usize = 0;
        let ghost found = scanned(self.projects@);
        assert(all@.len() == entries(all@).len());
        while i < all.len()
            invariant
                i <= all@.len(),
                entries(all@) == found,
                texts(out@) == entry_names(found.take(i as int)),
            decreases all@.len() - i,
        {
            let ghost earlier = out@;
            assert(*all@[i as int] == entries(all@)[i as int]);
            out.push(all[i].name.clone());
            assert(texts(out@) =~= texts(earlier).push(found[i as int].name@));
            assert(entry_names(found.take(i + 1)) =~= entry_names(found.take(i as int)).push(
                found[i as int].name@,
            ));
            i += 1;
        }
        assert(found.take(i as int) =~= found);
        out
    }

    /// What `known_names` says.
    pub open spec fn known(&self) -> Seq<char> {
        if self.projects@.len() == 0 {
            "(реестр пуст)"@
        } else {
            joined(entry_names(scanned(self.projects@)), ", "@)
        }
    }

    /// The names of all projects in one line.
    pub fn known_names(&self) -> (r: String)
        ensures
            r@ == self.known(),
    {
        if self.projects.len() == 0 {
            return "(реестр пуст)".to_owned();
        }
        let names = self.names();
        assert(texts(names@).skip(0) =~= texts(names@));
        join_from(&names, 0, ", ")
    }

    /// The first project called `name`, or what is wrong.
    pub fn require_project(&self, name: &str) -> (r: Result<&ProjectEntry, ApiError>)
        ensures
            match r {
                Ok(p) => self.place(name@) is Some && *p == self.projects@[self.place(name@)->0],
                Err(e) => self.place(name@) is None && e.0@ == not_found(name@) + "; есть: "@
                    + self.known(),
            },
    {
        match self.find(name) {
            Some(p) => Ok(p),
            None => {
                let mut msg = not_found_error(name).0;
                msg.append("; есть: ");
                msg.append(self.known_names().as_str());
                Err(ApiError(msg))
            },
        }
    }

    /// Pauses a project or resumes it.
    pub fn set_paused(&mut self, name: &str, paused: bool) -> (r: Result<(), ApiError>)
        ensures
            distinct(old(self).projects@) ==> distinct(final(self).projects@),
            match old(self).place(name@) {
                Some(k) => r is Ok && final(self).projects@ == old(self).projects@.update(
                    k,
                    (ProjectEntry { paused, ..old(self).projects@[k] }),
                ),
                None => {
                    &&& r matches Err(e)
                    &&& e.0@ == not_found(name@)
                    &&& *final(self) == *old(self)
                },
            },
    {
        match self.index(name) {
            Some(i) => {
                self.projects[i].paused = paused;
                Ok(())
            },
            None => Err(not_found_error(name)),
        }
    }

    /// Pauses a project that runs and resumes one that is paused; says whether it is paused now.
    pub fn toggle_paused(&mut self, name: &str) -> (r: Result<bool, ApiError>)
        ensures
            distinct(old(self).projects@) ==> distinct(final(self).projects@),
            match old(self).place(name@) {
                Some(k) => {
                    &&& r matches Ok(now)
                    &&& now == !old(self).projects@[k].paused
                    &&& final(self).projects@ == toggled(old(self).projects@, name@)
                },
                None => {
                    &&& r matches Err(e)
                    &&& e.0@ == not_found(name@)
                    &&& *final(self) == *old(self)
                },
            },
    {
        match self.index(name) {
            Some(i) => {
                let paused = !self.projects[i].paused;
                self.projects[i].paused = paused;
                Ok(paused)
            },
            None => Err(not_found_error(name)),
        }
    }

    /// Whether the priority of the project called `name` stays within its range when `delta` is
    /// added.
    pub open spec fn bump_in_range(&self, name: Seq<char>, delta: int) -> bool {
        match self.place(name) {
            Some(k) => i64::MIN <= self.projects@[k].priority + delta <= i64::MAX,
            None => true,
        }
    }

    pub fn can_bump(&self, name: &str, delta: i64) -> (r: bool)
        ensures
            r == self.bump_in_range(name@, delta as int),
    {
        match self.index(name) {
            Some(i) => {
                let sum: i128 = self.projects[i].priority as i128 + delta as i128;
                i64::MIN as i128 <= sum && sum <= i64::MAX as i128
            },
            None => true,
        }
    }

    /// Adds to the priority of a project; says what it is now.
    pub fn bump_priority(&mut self, name: &str, delta: i64) -> (r: Result<i64, ApiError>)
        requires
            old(self).bump_in_range(name@, delta as int),
        ensures
            distinct(old(self).projects@) ==> distinct(final(self).projects@),
            match old(self).place(name@) {
                Some(k) => {
                    &&& r matches Ok(now)
                    &&& now == old(self).projects@[k].priority + delta
                    &&& final(self).projects@ == old(self).projects@.update(
                        k,
                        (ProjectEntry { priority: now, ..old(self).projects@[k] }),
                    )
                },
                None => {
                    &&& r matches Err(e)
                    &&& e.0@ == not_found(name@)
                    &&& *final(self) == *old(self)
                },
            },
    {
        match self.index(name) {
            Some(i) => {
                let now: i64 = self.projects[i].priority + delta;
                self.projects[i].priority = now;
                Ok(now)
            },
            None => Err(not_found_error(name)),
        }
    }

    /// Sets the priority of a project.
    pub fn set_priority(&mut self, name: &str, pr: i64) -> (r: Result<(), ApiError>)
        ensures
            distinct(old(self).projects@) ==> distinct(final(self).projects@),
            match old(self).place(name@) {
                Some(k) => r is Ok && final(self).projects@ == old(self).projects@.update(
                    k,
                    (ProjectEntry { priority: pr, ..old(self).projects@[k] }),
                ),
                None => {
                    &&& r matches Err(e)
                    &&& e.0@ == not_found(name@)
                    &&& *final(self) == *old(self)
                },
            },
    {
        match self.index(name) {
            Some(i) => {
                self.projects[i].priority = pr;
                Ok(())
            },
            None => Err(not_found_error(name)),
        }
    }

    /// The place of the first project that has the directory under another name.
    pub open spec fn dir_taken(&self, name: Seq<char>, dir: Seq<char>) -> Option<int> {
        other_name_from(self.projects@, name, dir, 0)
    }

    fn taken_index(&self, name: &str, dir: &str) -> (r: Option<usize>)
        ensures
            match r {
                Some(i) => self.dir_taken(name@, dir@) == Some(i as int) && i
                    < self.projects@.len(),
                None => self.dir_taken(name@, dir@) is None,
            },
    {
        let mut i: usize = 0;
        while i < self.projects.len()
            invariant
                i <= self.projects@.len(),
                self.dir_taken(name@, dir@) == other_name_from(
                    self.projects@,
                    name@,
                    dir@,
                    i as int,
                ),
            decreases self.projects@.len() - i,
        {
            if same_path(self.projects[i].dir.as_str(), dir) && !text_eq(
                self.projects[i].name.as_str(),
                name,
            ) {
                return Some(i);
            }
            i += 1;
        }
        None
    }

    /// Puts a project under control, or changes the directory and the priority of one that is;
    /// says whether it was there. A directory has one name at most.
    pub fn register(&mut self, name: &str, dir: &str, priority: i64) -> (r: Result<bool, ApiError>)
        ensures
            distinct(old(self).projects@) ==> distinct(final(self).projects@),
            r is Ok ==> {
                &&& final(self).place(name@) is Some
                &&& final(self).projects@[final(self).place(name@)->0].dir@ == dir@
                &&& final(self).projects@[final(self).place(name@)->0].priority == priority
            },
            match old(self).dir_taken(name@, dir@) {
                Some(k) => {
                    &&& r matches Err(e)
                    &&& e.0@ == "каталог уже зарегистрирован под именем «"@
                        + old(self).projects@[k].name@ + "»"@
                    &&& *final(self) == *old(self)
                },
                None => match old(self).place(name@) {
                    Some(k) => {
                        &&& r == Ok::<bool, ApiError>(true)
                        &&& final(self).projects@.len() == old(self).projects@.len()
                        &&& forall|j: int|
                            0 <= j < old(self).projects@.len() && j != k
                                ==> #[trigger] final(self).projects@[j] == old(self).projects@[j]
                        &&& final(self).projects@[k].name == old(self).projects@[k].name
                        &&& final(self).projects@[k].dir@ == dir@
                        &&& final(self).projects@[k].priority == priority
                        &&& final(self).projects@[k].paused == old(self).projects@[k].paused
                    },
                    None => {
                        &&& r == Ok::<bool, ApiError>(false)
                        &&& final(self).projects@.len() == old(self).projects@.len() + 1
                        &&& final(self).projects@.drop_last() == old(self).projects@
                        &&& final(self).projects@.last().name@ == name@
                        &&& final(self).projects@.last().dir@ == dir@
                        &&& final(self).projects@.last().priority == priority
                        &&& !final(self).projects@.last().paused
                    },
                },
            },
    {
        proof {
            lemma_place(old(self).projects@, name@, 0);
            lemma_other_name(old(self).projects@, name@, dir@, 0);
        }
        if let Some(i) = self.taken_index(name, dir) {
            let mut msg = "каталог уже зарегистрирован под именем «".to_owned();
            msg.append(self.projects[i].name.as_str());
            msg.append("»");
            return Err(ApiError(msg));
        }
        match self.index(name) {
            Some(i) => {
                self.projects[i].dir = dir.to_owned();
                self.projects[i].priority = priority;
                proof {
                    lemma_place_by_names(old(self).projects@, self.projects@, name@, 0);
                }
                Ok(true)
            },
            None => {
                self.projects.push(
                    ProjectEntry {
                        name: name.to_owned(),
                        dir: dir.to_owned(),
                        priority,
                        paused: false,
                    },
                );
                assert(self.projects@.drop_last() =~= old(self).projects@);
                proof {
                    lemma_place(self.projects@, name@, 0);
                    assert(self.projects@.last().name@ == name@);
                    assert forall|j: int| 0 <= j < old(self).projects@.len() implies (
                    #[trigger] self.projects@[j]).name@ != name@ by {
                        assert(self.projects@[j] == old(self).projects@[j]);
                    }
                }
                Ok(false)
            },
        }
    }

    /// The projects that are not called `name`.
    pub open spec fn without(&self, name: Seq<char>) -> Seq<ProjectEntry> {
        self.projects@.filter(not_called(name))
    }

    /// Takes a project from under control.
    pub fn remove(&mut self, name: &str) -> (r: Result<(), ApiError>)
        ensures
            distinct(old(self).projects@) ==> distinct(final(self).projects@),
            match old(self).place(name@) {
                Some(_) => r is Ok && final(self).projects@ == old(self).without(name@)
                    && final(self).place(name@) is None,
                None => {
                    &&& r matches Err(e)
                    &&& e.0@ == not_found(name@) + "; есть: "@ + old(self).known()
                    &&& *final(self) == *old(self)
                },
            },
    {
        if self.index(name).is_none() {
            let mut msg = not_found_error(name).0;
            msg.append("; есть: ");
            msg.append(self.known_names().as_str());
            return Err(ApiError(msg));
        }
        let ghost all = self.projects@;
        let ghost keep = not_called(name@);
        let mut i: usize = 0;
        assert(all.skip(0) =~= all);
        reveal(Seq::filter);
        assert(all.take(0).filter(keep) =~= Seq::empty());
        let ghost mut seen: int = 0;
        assert(self.projects@ =~= all.take(0).filter(keep) + all.skip(0));
        while i < self.projects.len()
            invariant
                0 <= seen <= all.len(),
                i == all.take(seen).filter(keep).len(),
                self.projects@ == all.take(seen).filter(keep) + all.skip(seen),
                keep == not_called(name@),
            decreases all.len() - seen,
        {
            proof {
                lemma_filter_step(all, keep, seen);
            }
            let ghost kept = all.take(seen).filter(keep);
            assert(self.projects@[i as int] == all.skip(seen)[0]);
            assert(all.skip(seen)[0] == all[seen]);
            if text_eq(self.projects[i].name.as_str(), name) {
                self.projects.remove(i);
                assert(self.projects@ =~= kept + all.skip(seen + 1));
            } else {
                assert(self.projects@ =~= kept.push(all[seen]) + all.skip(seen + 1));
                i += 1;
            }
            proof {
                seen = seen + 1;
            }
        }
        assert(all.take(seen).filter(keep) + all.skip(seen) == self.projects@);
        assert(all.skip(seen).len() == 0);
        assert(all.take(seen) =~= all);
        assert(self.projects@ =~= all.filter(keep));
        proof {
            lemma_filter_distinct(all, keep);
            lemma_place(self.projects@, name@, 0);
            if let Some(k) = place_from(self.projects@, name@, 0) {
                all.lemma_filter_pred(keep, k);
            }
        }
        Ok(())
    }
}

/// The global configuration.
#[derive(Debug, Clone)]
pub struct GlobalConfig {
    pub defaults: DefaultsCfg,
    pub daemon: DaemonCfg,
    pub telegram: TelegramCfg,
}

/// What the settings of a new project are filled with.
#[derive(Debug, Clone)]
pub struct DefaultsCfg {
    pub token_env: String,
    pub operator: Option<PersonCfg>,
    pub agent: Option<AgentCfg>,
}

#[derive(Debug, Clone)]
pub struct PersonCfg {
    pub gid: String,
    pub label: String,
}

#[derive(Debug, Clone)]
pub struct AgentCfg {
    pub gid: String,
    pub name: String,
    pub label: String,
}

#[derive(Debug, Clone)]
pub struct DaemonCfg {
    /// The seconds after which a session is killed.
    pub session_timeout: u64,
    /// The seconds to sleep when the fallback model is at its limit too.
    pub limit_sleep: u64,
    /// The seconds to sleep when no project has a task.
    pub no_task_sleep: u64,
    pub fallback_model: String,
}

#[derive(Debug, Clone)]
pub struct TelegramCfg {
    /// The token of the bot itself.
    pub token: Option<String>,
    /// The environment variable that holds the token.
    pub token_env: String,
    /// The chats that may control the bot.
    pub allowed_chats: Vec<i64>,
}

pub fn d_token_env() -> (r: String)
    ensures
        r@ == "ASANA_ACCESS_TOKEN"@,
{
    "ASANA_ACCESS_TOKEN".to_owned()
}

pub fn d_tg_token_env() -> (r: String)
    ensures
        r@ == "AUTOPILOT_TG_TOKEN"@,
{
    "AUTOPILOT_TG_TOKEN".to_owned()
}

pub fn d_session_timeout() -> (r: u64)
    ensures
        r == 10800,
{
    10800
}

pub fn d_limit_sleep() -> (r: u64)
    ensures
        r == 1200,
{
    1200
}

pub fn d_no_task_sleep() -> (r: u64)
    ensures
        r == 600,
{
    600
}

pub fn d_fallback_model() -> (r: String)
    ensures
        r@ == "opus"@,
{
    "opus".to_owned()
}

impl DefaultsCfg {
    /// Whether nothing is configured.
    pub open spec fn unset(&self) -> bool {
        &&& self.token_env@ == "ASANA_ACCESS_TOKEN"@
        &&& self.operator is None
        &&& self.agent is None
    }
}

impl Default for DefaultsCfg {
    fn default() -> (r: DefaultsCfg)
        ensures
            r.unset(),
    {
        DefaultsCfg { token_env: d_token_env(), operator: None, agent: None }
    }
}

impl DaemonCfg {
    /// Whether nothing is configured.
    pub open spec fn unset(&self) -> bool {
        &&& self.session_timeout == 10800
        &&& self.limit_sleep == 1200
        &&& self.no_task_sleep == 600
        &&& self.fallback_model@ == "opus"@
    }
}

impl Default for DaemonCfg {
    fn default() -> (r: DaemonCfg)
        ensures
            r.unset(),
    {
        DaemonCfg {
            session_timeout: d_session_timeout(),
            limit_sleep: d_limit_sleep(),
            no_task_sleep: d_no_task_sleep(),
            fallback_model: d_fallback_model(),
        }
    }
}

impl TelegramCfg {
    /// Whether nothing is configured.
    pub open spec fn unset(&self) -> bool {
        &&& self.token is None
        &&& self.token_env@ == "AUTOPILOT_TG_TOKEN"@
        &&& self.allowed_chats@.len() == 0
    }

    /// The token of the bot: the one in the configuration, else the value of the environment
    /// variable, where one of them is more than white space.
    pub fn resolve_token(&self, env: Option<String>) -> (r: Option<String>)
        ensures
            if self.token is Some && trimmed(self.token->0@).len() > 0 {
                r matches Some(t) && t@ == trimmed(self.token->0@)
            } else if env is Some && trimmed(env->0@).len() > 0 {
                r == env
            } else {
                r is None
            },
    {
        if let Some(t) = &self.token {
            let t = trim(t.as_str());
            if !t.is_empty() {
                return Some(t.to_owned());
            }
        }
        match env {
            Some(t) => if trim(t.as_str()).is_empty() {
                None
            } else {
                Some(t)
            },
            None => None,
        }
    }
}

impl Default for TelegramCfg {
    fn default() -> (r: TelegramCfg)
        ensures
            r.unset(),
    {
        TelegramCfg { token: None, token_env: d_tg_token_env(), allowed_chats: Vec::new() }
    }
}

impl Default for GlobalConfig {
    fn default() -> (r: GlobalConfig)
        ensures
            r.defaults.unset(),
            r.daemon.unset(),
            r.telegram.unset(),
    {
        GlobalConfig {
            defaults: DefaultsCfg::default(),
            daemon: DaemonCfg::default(),
            telegram: TelegramCfg::default(),
        }
    }
}

/// What the daemon does, as it tells other processes.
#[derive(Debug, Clone)]
pub struct DaemonStatus {
    /// `idle`, `session`, `limit_sleep` or `stopped`.
    pub state: String,
    pub project: Option<String>,
    pub task_gid: Option<String>,
    pub task_name: Option<String>,
    pub model: Option<String>,
    pub session_log: Option<String>,
    pub updated_at: String,
}

impl DaemonStatus {
    /// Whether the status says no more than a state and a time.
    pub open spec fn bare(&self, state: Seq<char>, updated_at: Seq<char>) -> bool {
        &&& self.state@ == state
        &&& self.project is None
        &&& self.task_gid is None
        &&& self.task_name is None
        &&& self.model is None
        &&& self.session_log is None
        &&& self.updated_at@ == updated_at
    }

    /// A status with a state and a time.
    pub fn set(state: &str, updated_at: &str) -> (r: DaemonStatus)
        ensures
            r.bare(state@, updated_at@),
    {
        DaemonStatus {
            state: state.to_owned(),
            project: None,
            task_gid: None,
            task_name: None,
            model: None,
            session_log: None,
            updated_at: updated_at.to_owned(),
        }
    }
}

impl Default for DaemonStatus {
    fn default() -> (r: DaemonStatus)
        ensures
            r.bare(""@, ""@),
    {
        DaemonStatus::set("", "")
    }
}

/// The process number that a text holds.
pub open spec fn pid_in(text: Seq<char>) -> Option<int> {
    within(nat_value(trimmed(text)), 0, u32::MAX as int)
}

/// The process number of the daemon, from its file.
pub fn read_pid(content: Option<&str>) -> (r: Option<u32>)
    ensures
        match (r, content) {
            (Some(n), Some(text)) => pid_in(text@) == Some(n as int),
            (None, Some(text)) => pid_in(text@) is None,
            (None, None) => true,
            (Some(_), None) => false,
        },
{
    match content {
        Some(text) => parse_u32(trim(text)),
        None => None,
    }
}

/// The process number of the daemon, where that process is alive.
pub fn daemon_pid(pid: Option<u32>, alive: bool) -> (r: Option<u32>)
    ensures
        r == (if alive {
            pid
        } else {
            None
        }),
{
    if alive {
        pid
    } else {
        None
    }
}

/// The process group of a process, from the output of `ps`.
pub fn pgid_of(output: &str) -> (r: Option<u32>)
    ensures
        match r {
            Some(n) => pid_in(output@) == Some(n as int),
            None => pid_in(output@) is None,
        },
{
    parse_u32(trim(output))
}

/// The projects with the first one called `name` paused where it ran and running where it was
/// paused.
pub open spec fn toggled(projects: Seq<ProjectEntry>, name: Seq<char>) -> Seq<ProjectEntry> {
    match place_from(projects, name, 0) {
        Some(k) => projects.update(
            k,
            ProjectEntry { paused: !projects[k].paused, ..projects[k] },
        ),
        None => projects,
    }
}

/// The place of a name depends on the names alone.
pub proof fn lemma_place_by_names(
    p: Seq<ProjectEntry>,
    q: Seq<ProjectEntry>,
    name: Seq<char>,
    i: int,
)
    requires
        p.len() == q.len(),
        forall|j: int| 0 <= j < p.len() ==> (#[trigger] p[j]).name == q[j].name,
    ensures
        place_from(p, name, i) == place_from(q, name, i),
    decreases p.len() - i,
{
    if 0 <= i < p.len() {
        assert(p[i].name == q[i].name);
        lemma_place_by_names(p, q, name, i + 1);
    }
}

/// To toggle a project twice changes nothing.
pub proof fn law_toggle_twice_restores(projects: Seq<ProjectEntry>, name: Seq<char>)
    ensures
        toggled(toggled(projects, name), name) == projects,
{
    let once = toggled(projects, name);
    lemma_place(projects, name, 0);
    assert forall|j: int| 0 <= j < projects.len() implies (#[trigger] projects[j]).name
        == once[j].name by {}
    lemma_place_by_names(projects, once, name, 0);
    assert(toggled(once, name) =~= projects);
}

proof fn lemma_filter_step<T>(s: Seq<T>, keep: spec_fn(T) -> bool, i: int)
    requires
        0 <= i < s.len(),
    ensures
        s.take(i + 1).filter(keep) == if keep(s[i]) {
            s.take(i).filter(keep).push(s[i])
        } else {
            s.take(i).filter(keep)
        },
{
    reveal(Seq::filter);
    assert(s.take(i + 1).drop_last() =~= s.take(i));
    assert(s.take(i + 1).last() == s[i]);
}

proof fn lemma_filter_distinct(s: Seq<ProjectEntry>, keep: spec_fn(ProjectEntry) -> bool)
    ensures
        distinct(s) ==> distinct(s.filter(keep)),
    decreases s.len(),
{
    if distinct(s) {
        reveal(Seq::filter);
        if s.len() > 0 {
            let head = s.drop_last();
            let kept = head.filter(keep);
            assert forall|i: int, j: int|
                0 <= i < head.len() && 0 <= j < head.len() && i
                    != j implies #[trigger] head[i].name@ != #[trigger] head[j].name@ && !alike(
                head[i].dir@,
                head[j].dir@,
            ) by {
                assert(head[i] == s[i] && head[j] == s[j]);
            }
            lemma_filter_distinct(head, keep);
            if keep(s.last()) {
                let all = s.filter(keep);
                assert forall|i: int, j: int|
                    0 <= i < all.len() && 0 <= j < all.len() && i
                        != j implies #[trigger] all[i].name@ != #[trigger] all[j].name@ && !alike(
                    all[i].dir@,
                    all[j].dir@,
                ) by {
                    let m = if i < j {
                        i
                    } else {
                        j
                    };
                    if i < kept.len() && j < kept.len() {
                        assert(all[i] == kept[i] && all[j] == kept[j]);
                        assert(kept[i].name@ != kept[j].name@);
                    } else {
                        assert(kept.contains(kept[m]));
                        head.lemma_filter_contains_rev(keep, kept[m]);
                        let k = head.index_of(kept[m]);
                        assert(head[k] == kept[m] && s[k] == head[k] && all[m] == kept[m]);
                        assert(s[k].name@ != s[s.len() - 1].name@);
                    }
                }
            }
        }
    }
}

proof fn lemma_scan_order()
    ensures
        strict_weak(scan_order()),
{
    let lt = scan_order();
    assert forall|a: ProjectEntry| !#[trigger] lt(a, a) by {
        lemma_before_irreflexive(a.name@);
    }
    assert forall|a: ProjectEntry, b: ProjectEntry, c: ProjectEntry|
        #[trigger] lt(a, b) && #[trigger] lt(b, c) implies lt(a, c) by {
        if a.priority == b.priority && b.priority == c.priority {
            lemma_before_transitive(a.name@, b.name@, c.name@);
        }
    }
    assert forall|a: ProjectEntry, b: ProjectEntry, c: ProjectEntry|
        !(#[trigger] lt(a, b)) && !(#[trigger] lt(b, c)) implies !lt(a, c) by {
        if lt(a, c) && a.priority == b.priority && b.priority == c.priority {
            lemma_before_total(a.name@, b.name@);
            lemma_before_total(b.name@, c.name@);
            if text_before(c.name@, b.name@) && text_before(b.name@, a.name@) {
                lemma_before_transitive(c.name@, b.name@, a.name@);
                lemma_before_transitive(a.name@, c.name@, a.name@);
                lemma_before_irreflexive(a.name@);
            } else if a.name@ == b.name@ && b.name@ != c.name@ {
                lemma_before_transitive(a.name@, c.name@, a.name@);
                lemma_before_irreflexive(a.name@);
            } else if b.name@ == c.name@ && a.name@ != b.name@ {
                lemma_before_transitive(a.name@, b.name@, a.name@);
                lemma_before_irreflexive(a.name@);
            } else {
                lemma_before_irreflexive(a.name@);
            }
        }
    }
}

/// Projects are looked at by falling priority, those of one priority by name.
pub proof fn law_scan_by_priority_then_name(projects: Seq<ProjectEntry>, i: int, j: int)
    requires
        0 <= i < j < projects.len(),
    ensures
        ({
            let a = scanned(projects)[i];
            let b = scanned(projects)[j];
            a.priority > b.priority || (a.priority == b.priority && !text_before(b.name@, a.name@))
        }),
{
    lemma_scan_order();
    law_sorted_in_order(projects, scan_order());
    law_sorted_same_items(projects, scan_order());
    let lt = scan_order();
    assert(!lt(scanned(projects)[j], scanned(projects)[i]));
}

/// The daemon looks at each project that is not paused, as often as it is registered, and at no
/// other.
pub proof fn law_scan_of_active_projects(projects: Seq<ProjectEntry>)
    ensures
        scanned(active(projects)).to_multiset() == active(projects).to_multiset(),
        forall|p: ProjectEntry| #[trigger]
            scanned(active(projects)).contains(p) <==> projects.contains(p) && !p.paused,
{
    let running = active(projects);
    law_sorted_same_items(running, scan_order());
    assert forall|p: ProjectEntry| #[trigger]
        scanned(running).contains(p) <==> projects.contains(p) && !p.paused by {
        let keep = |p: ProjectEntry| !p.paused;
        running.to_multiset_ensures();
        scanned(running).to_multiset_ensures();
        assert(running.contains(p) <==> running.to_multiset().count(p) > 0);
        assert(scanned(running).contains(p) <==> scanned(running).to_multiset().count(p) > 0);
        if running.contains(p) {
            projects.lemma_filter_contains_rev(keep, p);
            let i = running.index_of(p);
            projects.lemma_filter_pred(keep, i);
        }
        if projects.contains(p) && !p.paused {
            projects.lemma_filter_contains(keep, projects.index_of(p));
        }
    }
}

/// The projects that the daemon looks at are all projects, in the order in which all of them are
/// listed, without those that are paused.
pub proof fn law_active_projects_keep_their_order(projects: Seq<ProjectEntry>)
    ensures
        scanned(active(projects)) == active(scanned(projects)),
{
    lemma_scan_order();
    law_sorted_then_kept(projects, scan_order(), |p: ProjectEntry| !p.paused);
}

/// What is said of projects that there are not, and of those that there are.
pub proof fn law_unknown_names_are_told(name: Seq<char>, reg: Registry)
    ensures
        not_found(name) == "проект «"@ + name + "» не найден"@,
        reg.projects@.len() == 0 ==> reg.known() == "(реестр пуст)"@,
        reg.projects@.len() > 0 ==> reg.known() == joined(
            scanned(reg.projects@).map_values(|p: ProjectEntry| p.name@),
            ", "@,
        ),
{
}

/// To remove a project takes away every entry of that name and no other, and keeps the order.
pub proof fn law_only_the_named_project_is_removed(reg: Registry, name: Seq<char>, x: ProjectEntry)
    ensures
        reg.without(name).contains(x) <==> reg.projects@.contains(x) && x.name@ != name,
        (forall|i: int|
            0 <= i < reg.projects@.len() ==> (#[trigger] reg.projects@[i]).name@ != name)
            ==> reg.without(name) == reg.projects@,
{
    let keep = not_called(name);
    let all = reg.projects@;
    if reg.without(name).contains(x) {
        all.lemma_filter_contains_rev(keep, x);
        let i = reg.without(name).index_of(x);
        all.lemma_filter_pred(keep, i);
    }
    if all.contains(x) && x.name@ != name {
        let i = all.index_of(x);
        all.lemma_filter_contains(keep, i);
    }
    if forall|i: int| 0 <= i < all.len() ==> (#[trigger] all[i]).name@ != name {
        lemma_all_kept(all, keep);
    }
}

/// What is kept of a registry keeps its order: one more entry stands behind the others, unless it
/// bears the name.
pub proof fn law_removal_keeps_the_order(
    reg: Registry,
    more: Registry,
    name: Seq<char>,
    x: ProjectEntry,
)
    requires
        more.projects@ == reg.projects@.push(x),
    ensures
        x.name@ != name ==> more.without(name) == reg.without(name).push(x),
        x.name@ == name ==> more.without(name) == reg.without(name),
{
    reveal(Seq::filter);
    assert(more.projects@.drop_last() =~= reg.projects@);
}

proof fn lemma_all_kept<T>(s: Seq<T>, keep: spec_fn(T) -> bool)
    requires
        forall|i: int| 0 <= i < s.len() ==> keep(#[trigger] s[i]),
    ensures
        s.filter(keep) == s,
    decreases s.len(),
{
    reveal(Seq::filter);
    if s.len() > 0 {
        let head = s.drop_last();
        assert forall|i: int| 0 <= i < head.len() implies keep(#[trigger] head[i]) by {
            assert(head[i] == s[i]);
        }
        lemma_all_kept(head, keep);
        assert(head.push(s.last()) =~= s);
        assert(keep(s[s.len() - 1]));
    } else {
        assert(s.filter(keep) =~= s);
    }
}

/// A directory is taken exactly where a project of another name has it, and the first such project
/// is named.
pub proof fn law_directory_taken_by_another_name(
    reg: Registry,
    name: Seq<char>,
    dir: Seq<char>,
)
    ensures
        reg.dir_taken(name, dir) is Some <==> exists|i: int|
            0 <= i < reg.projects@.len() && alike((#[trigger] reg.projects@[i]).dir@, dir)
                && reg.projects@[i].name@ != name,
        reg.dir_taken(name, dir) matches Some(k) ==> {
            &&& 0 <= k < reg.projects@.len()
            &&& alike(reg.projects@[k].dir@, dir) && reg.projects@[k].name@ != name
            &&& forall|j: int|
                0 <= j < k ==> !(alike((#[trigger] reg.projects@[j]).dir@, dir)
                    && reg.projects@[j].name@ != name)
        },
{
    lemma_other_name(reg.projects@, name, dir, 0);
    lemma_other_first(reg.projects@, name, dir, 0);
}

proof fn lemma_other_first(projects: Seq<ProjectEntry>, name: Seq<char>, dir: Seq<char>, i: int)
    requires
        0 <= i <= projects.len(),
    ensures
        match other_name_from(projects, name, dir, i) {
            Some(k) => {
                &&& i <= k < projects.len()
                &&& alike(projects[k].dir@, dir) && projects[k].name@ != name
                &&& forall|j: int|
                    i <= j < k ==> !(alike((#[trigger] projects[j]).dir@, dir) && projects[j].name@
                        != name)
            },
            None => forall|j: int|
                i <= j < projects.len() ==> !(alike((#[trigger] projects[j]).dir@, dir)
                    && projects[j].name@ != name),
        },
    decreases projects.len() - i,
{
    if i < projects.len() && !(alike(projects[i].dir@, dir) && projects[i].name@ != name) {
        lemma_other_first(projects, name, dir, i + 1);
    }
}

/// A registry is in order exactly where no two projects have one name, and no two one directory.
pub proof fn law_distinct_names_and_directories(projects: Seq<ProjectEntry>, i: int, j: int)
    requires
        distinct(projects),
        0 <= i < projects.len(),
        0 <= j < projects.len(),
        i != j,
    ensures
        projects[i].name@ != projects[j].name@,
        !alike(projects[i].dir@, projects[j].dir@),
{
    assert(projects[i].name@ != projects[j].name@);
}

/// The place of a name is that of the first project called so, and there is none where no project
/// is.
pub proof fn law_project_is_found_by_its_name(reg: Registry, name: Seq<char>, k: int)
    requires
        0 <= k <= reg.projects@.len(),
        forall|j: int| 0 <= j < k ==> (#[trigger] reg.projects@[j]).name@ != name,
    ensures
        k < reg.projects@.len() && reg.projects@[k].name@ == name ==> reg.place(name) == Some(k),
        k == reg.projects@.len() ==> reg.place(name) is None,
{
    lemma_place(reg.projects@, name, 0);
    if k < reg.projects@.len() && reg.projects@[k].name@ == name {
        assert(reg.projects@[k].name@ == name);
    }
}

/// Where a priority stays within the range of its type it can be changed.
pub proof fn law_priorities_within_their_range(reg: Registry, name: Seq<char>, delta: int)
    ensures
        reg.place(name) is None ==> reg.bump_in_range(name, delta),
        reg.place(name) matches Some(k) ==> (reg.bump_in_range(name, delta)
            <==> -0x8000_0000_0000_0000 <= reg.projects@[k].priority + delta
            <= 0x7fff_ffff_ffff_ffff),
{
}

/// The files of a project lie in `autopilot` inside its directory.
pub proof fn law_files_of_a_project(p: ProjectEntry)
    ensures
        p.autopilot_path() == path_in(p.dir@, "autopilot"@),
        p.logs_path() == path_in(path_in(p.dir@, "autopilot"@), "logs"@),
{
}

/// What holds where nothing is configured.
pub proof fn law_defaults(d: DaemonCfg, t: TelegramCfg, f: DefaultsCfg)
    ensures
        d.unset() ==> d.session_timeout == 3 * 60 * 60 && d.limit_sleep == 20 * 60
            && d.no_task_sleep == 10 * 60 && d.fallback_model@ == "opus"@,
        t.unset() ==> t.token is None && t.allowed_chats@ == Seq::<i64>::empty() && t.token_env@
            == "AUTOPILOT_TG_TOKEN"@,
        f.unset() ==> f.operator is None && f.agent is None && f.token_env@
            == "ASANA_ACCESS_TOKEN"@,
{
}

/// A status that is set tells its state and its time, and nothing of an earlier session.
pub proof fn law_status_forgets_the_session(s: DaemonStatus, state: Seq<char>, at: Seq<char>)
    requires
        s.bare(state, at),
    ensures
        s.state@ == state,
        s.updated_at@ == at,
        s.project is None && s.task_gid is None && s.task_name is None,
        s.model is None && s.session_log is None,
{
}

/// A process number is read from a text with white space around it, within the range of its type.
pub proof fn law_process_number_in_a_text(text: Seq<char>, n: int)
    ensures
        pid_in(text) == Some(n) <==> nat_value(trimmed(text)) == Some(n) && 0 <= n <= 0xffff_ffff,
{
}

/// A registry whose names and directories differ pairwise is in order.
pub proof fn law_registry_in_order(projects: Seq<ProjectEntry>)
    requires
        forall|i: int, j: int|
            #![trigger projects[i], projects[j]]
            0 <= i < projects.len() && 0 <= j < projects.len() && i != j ==> projects[i].name@
                != projects[j].name@ && !alike(projects[i].dir@, projects[j].dir@),
    ensures
        distinct(projects),
{
}

} // verus!
