//! Tasks, comments and boards as the library sees them.

use crate::text::{first_chars, keep_first, opt_text, text_eq};
use vstd::prelude::*;
use vstd::string::*;

verus! {

/// What went wrong, in words.
#[derive(Debug)]
pub struct ApiError(pub String);

#[derive(Debug, Clone, Default)]
pub struct User {
    pub gid: String,
    pub name: String,
}

/// A project, a section or a parent task.
#[derive(Debug, Clone, Default)]
pub struct Ref {
    pub gid: String,
    pub name: String,
}

/// The board and the section in which a task lies.
#[derive(Debug, Clone, Default)]
pub struct Membership {
    pub project: Option<Ref>,
    pub section: Option<Ref>,
}

#[derive(Debug, Clone, Default)]
pub struct Task {
    pub gid: String,
    pub name: String,
    pub notes: String,
    pub completed: bool,
    pub assignee: Option<User>,
    pub due_on: Option<String>,
    pub permalink_url: Option<String>,
    /// The parent, where the task is a subtask.
    pub parent: Option<Ref>,
    pub memberships: Vec<Membership>,
}

#[derive(Debug, Clone, Default)]
pub struct Attachment {
    pub gid: String,
    pub name: String,
    pub size: u64,
}

/// A comment or an event in the history of a task.
#[derive(Debug, Clone, Default)]
pub struct Story {
    pub resource_subtype: String,
    pub text: String,
    pub created_at: String,
    pub created_by: Option<User>,
}

/// Where a task lies: the board, the section as Asana names it and the role of that section.
#[derive(Debug, Clone)]
pub struct Placement {
    pub project_gid: String,
    pub project_name: String,
    pub section_name: String,
    pub role: Option<String>,
}

/// A placement as texts.
pub struct PlacementView {
    pub project_gid: Seq<char>,
    pub project_name: Seq<char>,
    pub section_name: Seq<char>,
    pub role: Option<Seq<char>>,
}

impl View for Placement {
    type V = PlacementView;

    open spec fn view(&self) -> PlacementView {
        PlacementView {
            project_gid: self.project_gid@,
            project_name: self.project_name@,
            section_name: self.section_name@,
            role: opt_text(self.role),
        }
    }
}

/// The view of an optional placement.
pub open spec fn opt_placement(p: Option<Placement>) -> Option<PlacementView> {
    match p {
        Some(p) => Some(p@),
        None => None,
    }
}

impl Task {
    pub open spec fn assignee_text(&self) -> Option<Seq<char>> {
        match self.assignee {
            Some(a) => Some(a.gid@),
            None => None,
        }
    }

    /// The gid of the account the task is assigned to.
    pub fn assignee_gid(&self) -> (r: Option<&str>)
        ensures
            match r {
                Some(g) => self.assignee_text() == Some(g@),
                None => self.assignee_text() is None,
            },
    {
        match &self.assignee {
            Some(a) => Some(a.gid.as_str()),
            None => None,
        }
    }

    /// Whether the task is assigned to the account `gid`.
    pub fn is_assigned_to(&self, gid: &str) -> (r: bool)
        ensures
            r == (self.assignee_text() == Some(gid@)),
    {
        match self.assignee_gid() {
            Some(g) => text_eq(g, gid),
            None => false,
        }
    }

    /// A subtask is handled through its parent, never on its own.
    pub fn is_subtask(&self) -> (r: bool)
        ensures
            r == (self.parent is Some),
    {
        self.parent.is_some()
    }
}

/// A time stamp in short form: a space in place of each `T`, cut to the minute.
pub open spec fn short_stamp(s: Seq<char>) -> Seq<char> {
    first_chars(
        s.map_values(
            |c: char|
                if c == 'T' {
                    ' '
                } else {
                    c
                },
        ),
        16,
    )
}

impl Story {
    pub open spec fn comment(&self) -> bool {
        self.resource_subtype@ == "comment_added"@
    }

    /// Whether this is a comment, and not an event of the system.
    pub fn is_comment(&self) -> (r: bool)
        ensures
            r == self.comment(),
    {
        text_eq(self.resource_subtype.as_str(), "comment_added")
    }

    pub open spec fn author_text(&self) -> Seq<char> {
        match self.created_by {
            Some(u) => if u.name@.len() > 0 {
                u.name@
            } else {
                "Unknown"@
            },
            None => "Unknown"@,
        }
    }

    /// The name of the author, `Unknown` where there is none.
    pub fn author(&self) -> (r: &str)
        ensures
            r@ == self.author_text(),
    {
        if let Some(u) = &self.created_by {
            if !u.name.as_str().is_empty() {
                return u.name.as_str();
            }
        }
        "Unknown"
    }

    /// The date in short form, as in `2026-07-21 22:54`.
    pub fn short_date(&self) -> (r: String)
        ensures
            r@ == short_stamp(self.created_at@),
    {
        let mut out = String::new();
        let ghost spaced = self.created_at@.map_values(
            |c: char|
                if c == 'T' {
                    ' '
                } else {
                    c
                },
        );
        for c in it: self.created_at.as_str().chars()
            invariant
                it.seq() == self.created_at@,
                out@ == spaced.take(it.index() as int),
                spaced == self.created_at@.map_values(
                    |c: char|
                        if c == 'T' {
                            ' '
                        } else {
                            c
                        },
                ),
        {
            if c == 'T' {
                out.push(' ');
            } else {
                out.push(c);
            }
        }
        assert(out@ =~= spaced);
        keep_first(out.as_str(), 16)
    }
}

/// A date in short form is the time stamp up to the minute, with a space for each `T`.
pub proof fn law_short_date_goes_to_the_minute(s: Seq<char>, i: int)
    ensures
        s.len() >= 16 ==> short_stamp(s).len() == 16,
        s.len() < 16 ==> short_stamp(s).len() == s.len(),
        0 <= i < s.len() && i < 16 && s[i] != 'T' ==> short_stamp(s)[i] == s[i],
        0 <= i < s.len() && i < 16 && s[i] == 'T' ==> short_stamp(s)[i] == ' ',
{
}

/// A story is a comment by its kind alone, and its author is the account that wrote it, unless that
/// has no name.
pub proof fn law_story_has_kind_and_author(story: Story)
    ensures
        story.comment() <==> story.resource_subtype@ == "comment_added"@,
        story.created_by is Some && story.created_by->0.name@.len() > 0 ==> story.author_text()
            == story.created_by->0.name@,
        story.created_by is None || story.created_by->0.name@.len() == 0 ==> story.author_text()
            == "Unknown"@,
{
}

/// A task is assigned to an account by the gid of that account.
pub proof fn law_assignee_is_a_gid(task: Task)
    ensures
        task.assignee is None <==> task.assignee_text() is None,
        task.assignee matches Some(a) ==> task.assignee_text() == Some(a.gid@),
{
}

/// A placement stands for its own texts.
pub proof fn law_view_of_a_placement(p: Placement)
    ensures
        p@.project_gid == p.project_gid@,
        p@.project_name == p.project_name@,
        p@.section_name == p.section_name@,
        p@.role == opt_text(p.role),
        opt_placement(Some(p)) == Some(p@),
        opt_placement(None) is None,
{
}

} // verus!
