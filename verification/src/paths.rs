//! Paths as texts, with `/` between their parts.

use crate::text::{
    before, before_char, chars_of, cut, cut_index, lemma_cut, lemma_cut_behind, lemma_cut_shift,
    string_of, text_eq, texts,
};
use vstd::prelude::*;
use vstd::string::*;

verus! {

/// `rel` inside `base`. An absolute `rel` stands for itself.
pub open spec fn path_in(base: Seq<char>, rel: Seq<char>) -> Seq<char> {
    if rel.len() > 0 && rel[0] == '/' {
        rel
    } else if base.len() == 0 || base.last() == '/' {
        base + rel
    } else {
        base + "/"@ + rel
    }
}

pub fn join(base: &str, rel: &str) -> (r: String)
    ensures
        r@ == path_in(base@, rel@),
{
    let n: usize = rel.unicode_len();
    if n > 0 && rel.get_char(0) == '/' {
        return rel.to_owned();
    }
    let mut out = base.to_owned();
    let m: usize = base.unicode_len();
    if m > 0 && base.get_char(m - 1) != '/' {
        out.append("/");
    }
    out.append(rel);
    out
}

/// The names in a path from position `from` on. An empty name and the name `.` do not count.
pub open spec fn parts_from(s: Seq<char>, from: int) -> Seq<Seq<char>>
    decreases s.len() + 1 - from,
{
    if from < 0 || from >= s.len() {
        Seq::empty()
    } else {
        let e = cut(s, '/', from);
        proof {
            lemma_cut(s, '/', from);
        }
        let name = s.subrange(from, e);
        let rest = parts_from(s, e + 1);
        if name.len() == 0 || name == "."@ {
            rest
        } else {
            seq![name] + rest
        }
    }
}

/// The names in a path.
pub open spec fn parts_of(s: Seq<char>) -> Seq<Seq<char>> {
    parts_from(s, 0)
}

pub fn parts(s: &str) -> (r: Vec<String>)
    ensures
        texts(r@) == parts_of(s@),
{
    let v = chars_of(s);
    let mut out: Vec<String> = Vec::new();
    let mut i: usize = 0;
    assert(texts(out@) + parts_from(s@, 0) =~= parts_of(s@));
    while i < v.len()
        invariant
            v@ == s@,
            texts(out@) + parts_from(s@, i as int) == parts_of(s@),
        decreases v@.len() + 1 - i,
    {
        proof {
            lemma_cut(s@, '/', i as int);
        }
        let e: usize = cut_index(&v, '/', i);
        let name = string_of(&v, i, e);
        if e > i && !text_eq(name.as_str(), ".") {
            let ghost earlier = out@;
            let ghost found = name@;
            out.push(name);
            assert(texts(out@) =~= texts(earlier).push(found));
            assert(texts(out@) + parts_from(s@, e + 1) =~= texts(earlier) + (seq![found]
                + parts_from(s@, e + 1)));
        }
        if e == v.len() {
            assert(parts_from(s@, e + 1) =~= Seq::empty());
            assert(texts(out@) =~= parts_of(s@));
            return out;
        }
        i = e + 1;
    }
    assert(texts(out@) =~= parts_of(s@));
    out
}

/// Whether a path starts at the root.
pub open spec fn rooted(s: Seq<char>) -> bool {
    s.len() > 0 && s[0] == '/'
}

/// Whether a path starts at the current directory, said by the name `.`.
pub open spec fn starts_here(s: Seq<char>) -> bool {
    before(s, '/') == "."@
}

/// Whether two paths are spelled alike, but for doubled and trailing slashes and for the name `.`
/// behind the start.
pub open spec fn alike(a: Seq<char>, b: Seq<char>) -> bool {
    &&& rooted(a) == rooted(b)
    &&& starts_here(a) == starts_here(b)
    &&& parts_of(a) == parts_of(b)
}

pub fn same_path(a: &str, b: &str) -> (r: bool)
    ensures
        r == alike(a@, b@),
{
    let ra = a.unicode_len() > 0 && a.get_char(0) == '/';
    let rb = b.unicode_len() > 0 && b.get_char(0) == '/';
    if ra != rb || text_eq(before_char(a, '/'), ".") != text_eq(before_char(b, '/'), ".") {
        return false;
    }
    let v = parts(a);
    let w = parts(b);
    let ghost p = parts_of(a@);
    let ghost q = parts_of(b@);
    assert(v@.len() == p.len() && w@.len() == q.len());
    if v.len() != w.len() {
        return false;
    }
    let mut i: usize = 0;
    while i < v.len()
        invariant
            i <= v@.len(),
            texts(v@) == p,
            texts(w@) == q,
            v@.len() == w@.len(),
            forall|j: int| 0 <= j < i ==> #[trigger] p[j] == q[j],
            p == parts_of(a@),
            q == parts_of(b@),
        decreases v@.len() - i,
    {
        assert(p[i as int] == v@[i as int]@ && q[i as int] == w@[i as int]@);
        if !text_eq(v[i].as_str(), w[i].as_str()) {
            return false;
        }
        i += 1;
    }
    assert(p =~= q);
    true
}

/// The last name in a path, where it does not lead upwards.
pub open spec fn last_name(s: Seq<char>) -> Option<Seq<char>> {
    let names = parts_of(s);
    if names.len() == 0 || names.last() == ".."@ {
        None
    } else {
        Some(names.last())
    }
}

pub fn file_name(s: &str) -> (r: Option<String>)
    ensures
        match r {
            Some(name) => last_name(s@) == Some(name@),
            None => last_name(s@) is None,
        },
{
    let names = parts(s);
    assert(names@.len() == parts_of(s@).len());
    let n: usize = names.len();
    if n == 0 {
        return None;
    }
    assert(names@[n - 1]@ == texts(names@)[n - 1]);
    if text_eq(names[n - 1].as_str(), "..") {
        None
    } else {
        Some(names[n - 1].clone())
    }
}

/// A path inside another one stands behind it, with one slash between them; an absolute path stands
/// for itself.
pub proof fn law_paths_are_joined_by_one_slash(base: Seq<char>, rel: Seq<char>)
    ensures
        rel.len() > 0 && rel[0] == '/' ==> path_in(base, rel) == rel,
        (rel.len() == 0 || rel[0] != '/') && base.len() > 0 && base.last() != '/' ==> path_in(
            base,
            rel,
        ) == base + seq!['/'] + rel,
        (rel.len() == 0 || rel[0] != '/') && (base.len() == 0 || base.last() == '/') ==> path_in(
            base,
            rel,
        ) == base + rel,
{
    reveal_strlit("/");
    assert("/"@ =~= seq!['/']);
}

proof fn lemma_parts_shift(s: Seq<char>, by: int, from: int)
    requires
        0 <= by <= from,
        by <= s.len(),
    ensures
        parts_from(s, from) == parts_from(s.skip(by), from - by),
    decreases s.len() + 1 - from,
{
    let t = s.skip(by);
    if from < s.len() {
        lemma_cut_shift(s, '/', by, from);
        lemma_cut(s, '/', from);
        let e = cut(s, '/', from);
        assert(s.subrange(from, e) =~= t.subrange(from - by, e - by));
        lemma_parts_shift(s, by, e + 1);
    }
}

/// A name as it counts in a path: not where it is empty, and not where it is `.`.
pub open spec fn counted(name: Seq<char>) -> Seq<Seq<char>> {
    if name.len() == 0 || name == "."@ {
        Seq::empty()
    } else {
        seq![name]
    }
}

/// The names in a path, read from its start: what stands before the first slash, unless it is empty
/// or `.`, and the names behind it.
pub proof fn law_names_in_a_path_one_by_one(name: Seq<char>, rest: Seq<char>)
    requires
        !name.contains('/'),
    ensures
        parts_of(Seq::empty()) == Seq::<Seq<char>>::empty(),
        name.len() > 0 && name != "."@ ==> parts_of(name) == seq![name] && parts_of(
            name + seq!['/'] + rest,
        ) == seq![name] + parts_of(rest),
        name.len() == 0 || name == "."@ ==> parts_of(name) == Seq::<Seq<char>>::empty() && parts_of(
            name + seq!['/'] + rest,
        ) == parts_of(rest),
{
    let n = name.len() as int;
    assert forall|j: int| 0 <= j < n implies name[j] != '/' by {
        if name[j] == '/' {
            assert(name.contains('/'));
        }
    }
    lemma_cut(name, '/', 0);
    if n > 0 {
        assert(cut(name, '/', 0) == n);
        assert(name.subrange(0, n) =~= name);
        assert(parts_from(name, n + 1) =~= Seq::<Seq<char>>::empty());
        assert(parts_of(name) =~= counted(name));
    }
    let s = name + seq!['/'] + rest;
    lemma_cut_behind(name, '/', rest, 0);
    assert(s.subrange(0, n) =~= name);
    lemma_parts_shift(s, n + 1, n + 1);
    assert(s.skip(n + 1) =~= rest);
}

/// The names in a path are those before a slash followed by those behind it; a slash at the end and
/// a doubled one count for nothing.
pub proof fn law_names_on_both_sides_of_a_slash(a: Seq<char>, b: Seq<char>)
    ensures
        parts_of(a + seq!['/'] + b) == parts_of(a) + parts_of(b),
        parts_of(a + seq!['/']) == parts_of(a),
    decreases a.len(),
{
    lemma_cut(a, '/', 0);
    let e = cut(a, '/', 0);
    let name = a.subrange(0, e);
    assert(!name.contains('/')) by {
        if name.contains('/') {
            let j = name.index_of('/');
            assert(a[j] == '/');
        }
    }
    if e < a.len() {
        let rest = a.subrange(e + 1, a.len() as int);
        assert(a =~= name + seq!['/'] + rest);
        law_names_on_both_sides_of_a_slash(rest, b);
        law_names_in_a_path_one_by_one(name, rest);
        law_names_in_a_path_one_by_one(name, rest + seq!['/'] + b);
        law_names_in_a_path_one_by_one(name, rest + seq!['/']);
        assert(a + seq!['/'] + b =~= name + seq!['/'] + (rest + seq!['/'] + b));
        assert(a + seq!['/'] =~= name + seq!['/'] + (rest + seq!['/']));
        assert(parts_of(a + seq!['/'] + b) =~= parts_of(a) + parts_of(b));
    } else {
        assert(name =~= a);
        law_names_in_a_path_one_by_one(a, b);
        law_names_in_a_path_one_by_one(a, Seq::empty());
        assert(a + seq!['/'] + Seq::<char>::empty() =~= a + seq!['/']);
        assert(parts_of(a + seq!['/']) =~= parts_of(a));
        assert(parts_of(a + seq!['/'] + b) =~= parts_of(a) + parts_of(b));
    }
}

/// The last name in a path is what stands behind its last slash, unless it leads upwards.
pub proof fn law_last_name_stands_behind_the_last_slash(dir: Seq<char>, name: Seq<char>)
    requires
        !name.contains('/'),
        name.len() > 0,
        name != "."@,
    ensures
        name != ".."@ ==> last_name(dir + seq!['/'] + name) == Some(name) && last_name(name) == Some(
            name,
        ),
        name == ".."@ ==> last_name(dir + seq!['/'] + name) is None,
        last_name(dir + seq!['/']) == last_name(dir),
{
    law_names_on_both_sides_of_a_slash(dir, name);
    law_names_in_a_path_one_by_one(name, Seq::empty());
    let all = parts_of(dir) + seq![name];
    assert(all.last() == name);
}

/// Two paths are alike exactly where both start at the root or neither does, both start with `.` or
/// neither does, and their names are the same.
pub proof fn law_alike_by_start_and_names(a: Seq<char>, b: Seq<char>)
    ensures
        alike(a, b) <==> (a.len() > 0 && a[0] == '/' <==> b.len() > 0 && b[0] == '/') && (before(
            a,
            '/',
        ) == "."@ <==> before(b, '/') == "."@) && parts_of(a) == parts_of(b),
        alike(a, a),
        a.len() > 0 ==> alike(a, a + seq!['/']),
{
    if a.len() > 0 {
        law_names_on_both_sides_of_a_slash(a, Seq::empty());
        let b = a + seq!['/'];
        assert(b[0] == a[0]);
        lemma_cut(a, '/', 0);
        lemma_cut(b, '/', 0);
        let e = cut(a, '/', 0);
        if e < a.len() {
            assert(b[e] == '/');
        } else {
            assert(b[e] == '/');
        }
        if cut(b, '/', 0) < e {
            assert(a[cut(b, '/', 0)] == '/');
        }
        if cut(b, '/', 0) > e {
            assert(b[e] != '/');
        }
        assert(before(b, '/') =~= before(a, '/'));
    }
}

/// A path without a name has no last name.
pub proof fn law_no_name_in_an_empty_path()
    ensures
        last_name(Seq::empty()) is None,
        last_name(seq!['/']) is None,
{
    law_names_on_both_sides_of_a_slash(Seq::empty(), Seq::empty());
    assert(Seq::<char>::empty() + seq!['/'] =~= seq!['/']);
}

} // verus!
