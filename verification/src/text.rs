//! Text operations, stated on strings as sequences of characters.

use vstd::prelude::*;
use vstd::string::*;

verus! {

/// The views of a sequence of strings.
pub open spec fn texts(v: Seq<String>) -> Seq<Seq<char>> {
    v.map_values(|s: String| s@)
}

/// The view of an optional string.
pub open spec fn opt_text(o: Option<String>) -> Option<Seq<char>> {
    match o {
        Some(s) => Some(s@),
        None => None,
    }
}

/// Whether a list holds a text.
pub fn list_has(list: &Vec<String>, x: &str) -> (r: bool)
    ensures
        r == texts(list@).contains(x@),
{
    let mut i: usize = 0;
    while i < list.len()
        invariant
            i <= list@.len(),
            forall|j: int| 0 <= j < i ==> list@[j]@ != x@,
        decreases list@.len() - i,
    {
        if text_eq(list[i].as_str(), x) {
            assert(texts(list@)[i as int] == x@);
            return true;
        }
        i += 1;
    }
    false
}

/// The characters of a string.
pub fn chars_of(s: &str) -> (r: Vec<char>)
    ensures
        r@ == s@,
{
    let mut out: Vec<char> = Vec::new();
    for c in it: s.chars()
        invariant
            it.seq() == s@,
            out@ == s@.take(it.index() as int),
    {
        out.push(c);
    }
    out
}

/// The string of the characters from `from` to `to`.
pub fn string_of(v: &Vec<char>, from: usize, to: usize) -> (r: String)
    requires
        from <= to <= v@.len(),
    ensures
        r@ == v@.subrange(from as int, to as int),
{
    let mut out = String::new();
    let mut i: usize = from;
    while i < to
        invariant
            from <= i <= to <= v@.len(),
            out@ == v@.subrange(from as int, i as int),
        decreases to - i,
    {
        out.push(v[i]);
        i += 1;
    }
    out
}

/// Equality of two strings.
pub fn text_eq(a: &str, b: &str) -> (r: bool)
    ensures
        r == (a@ == b@),
{
    let x = a.as_bytes();
    let y = b.as_bytes();
    proof {
        vstd::utf8::encode_utf8_decode_utf8(a@);
        vstd::utf8::encode_utf8_decode_utf8(b@);
    }
    if x.len() != y.len() {
        return false;
    }
    let mut i: usize = 0;
    while i < x.len()
        invariant
            i <= x@.len(),
            x@.len() == y@.len(),
            x@ == a.spec_bytes(),
            y@ == b.spec_bytes(),
            forall|j: int| 0 <= j < i ==> x@[j] == y@[j],
        decreases x@.len() - i,
    {
        if x[i] != y[i] {
            return false;
        }
        i += 1;
    }
    assert(x@ =~= y@);
    true
}

/// The Unicode property `White_Space`.
pub open spec fn white_space(c: char) -> bool {
    let n = c as u32;
    ||| 0x9 <= n <= 0xd
    ||| n == 0x20
    ||| n == 0x85
    ||| n == 0xa0
    ||| n == 0x1680
    ||| 0x2000 <= n <= 0x200a
    ||| n == 0x2028
    ||| n == 0x2029
    ||| n == 0x202f
    ||| n == 0x205f
    ||| n == 0x3000
}

pub fn is_white_space(c: char) -> (r: bool)
    ensures
        r == white_space(c),
{
    let n = c as u32;
    (0x9 <= n && n <= 0xd) || n == 0x20 || n == 0x85 || n == 0xa0 || n == 0x1680 || (0x2000 <= n
        && n <= 0x200a) || n == 0x2028 || n == 0x2029 || n == 0x202f || n == 0x205f || n == 0x3000
}

pub open spec fn trimmed_start(s: Seq<char>) -> Seq<char>
    decreases s.len(),
{
    if s.len() > 0 && white_space(s[0]) {
        trimmed_start(s.drop_first())
    } else {
        s
    }
}

pub open spec fn trimmed_end(s: Seq<char>) -> Seq<char>
    decreases s.len(),
{
    if s.len() > 0 && white_space(s.last()) {
        trimmed_end(s.drop_last())
    } else {
        s
    }
}

/// The text without the white space at its two ends.
pub open spec fn trimmed(s: Seq<char>) -> Seq<char> {
    trimmed_end(trimmed_start(s))
}

pub fn trim<'a>(s: &'a str) -> (r: &'a str)
    ensures
        r@ == trimmed(s@),
{
    let v = chars_of(s);
    let mut i: usize = 0;
    assert(s@.skip(0) =~= s@);
    while i < v.len() && is_white_space(v[i])
        invariant
            i <= v@.len(),
            v@ == s@,
            trimmed_start(s@) == trimmed_start(s@.skip(i as int)),
        decreases v@.len() - i,
    {
        assert(s@.skip(i as int).drop_first() =~= s@.skip(i + 1));
        i += 1;
    }
    assert(trimmed_start(s@) == s@.skip(i as int));
    let mut j: usize = v.len();
    assert(s@.skip(i as int) =~= s@.subrange(i as int, j as int));
    while i < j && is_white_space(v[j - 1])
        invariant
            i <= j <= v@.len(),
            v@ == s@,
            trimmed(s@) == trimmed_end(s@.subrange(i as int, j as int)),
        decreases j,
    {
        assert(s@.subrange(i as int, j as int).drop_last() =~= s@.subrange(i as int, j - 1));
        j -= 1;
    }
    s.substring_char(i, j)
}

/// Whether `p` stands in `s` at position `i`.
pub open spec fn stands_at(s: Seq<char>, p: Seq<char>, i: int) -> bool {
    0 <= i && i + p.len() <= s.len() && s.subrange(i, i + p.len()) == p
}

/// Whether `p` stands somewhere in `s`.
pub open spec fn has_text(s: Seq<char>, p: Seq<char>) -> bool {
    exists|i: int| stands_at(s, p, i)
}

/// The first position, from `from` on, at which `p` stands in `s`.
pub open spec fn find_from(s: Seq<char>, p: Seq<char>, from: int) -> Option<int>
    decreases s.len() + 1 - from,
{
    if from + p.len() > s.len() {
        None
    } else if stands_at(s, p, from) {
        Some(from)
    } else {
        find_from(s, p, from + 1)
    }
}

pub fn is_at(s: &Vec<char>, p: &Vec<char>, i: usize) -> (r: bool)
    requires
        i + p@.len() <= s@.len(),
    ensures
        r == stands_at(s@, p@, i as int),
{
    let n: usize = s.len();
    let mut k: usize = 0;
    while k < p.len()
        invariant
            k <= p@.len(),
            n == s@.len(),
            i + p@.len() <= s@.len(),
            forall|j: int| 0 <= j < k ==> s@[i + j] == p@[j],
        decreases p@.len() - k,
    {
        if s[i + k] != p[k] {
            assert(s@.subrange(i as int, i + p@.len())[k as int] != p@[k as int]);
            return false;
        }
        k += 1;
    }
    assert(s@.subrange(i as int, i + p@.len()) =~= p@);
    true
}

pub fn find_index(s: &Vec<char>, p: &Vec<char>, from: usize) -> (r: Option<usize>)
    requires
        from <= s@.len(),
    ensures
        match r {
            Some(i) => find_from(s@, p@, from as int) == Some(i as int),
            None => find_from(s@, p@, from as int) is None,
        },
{
    let mut i: usize = from;
    while p.len() <= s.len() - i
        invariant
            from <= i <= s@.len(),
            find_from(s@, p@, from as int) == find_from(s@, p@, i as int),
        decreases s@.len() - i,
    {
        if is_at(s, p, i) {
            return Some(i);
        }
        if i == s.len() {
            assert(find_from(s@, p@, i + 1) is None);
            return None;
        }
        i += 1;
    }
    None
}

/// What the first position found means: the text stands there, and nowhere before.
pub proof fn lemma_find(s: Seq<char>, p: Seq<char>, from: int)
    requires
        0 <= from,
    ensures
        match find_from(s, p, from) {
            Some(i) => from <= i && stands_at(s, p, i) && forall|j: int|
                from <= j < i ==> !stands_at(s, p, j),
            None => forall|j: int| from <= j ==> !stands_at(s, p, j),
        },
    decreases s.len() + 1 - from,
{
    if from + p.len() <= s.len() && !stands_at(s, p, from) {
        lemma_find(s, p, from + 1);
    }
}

pub fn contains(s: &str, p: &str) -> (r: bool)
    ensures
        r == has_text(s@, p@),
{
    let v = chars_of(s);
    let w = chars_of(p);
    proof {
        lemma_find(s@, p@, 0);
    }
    find_index(&v, &w, 0).is_some()
}

pub fn starts_with(s: &str, p: &str) -> (r: bool)
    ensures
        r == stands_at(s@, p@, 0),
{
    let v = chars_of(s);
    let w = chars_of(p);
    w.len() <= v.len() && is_at(&v, &w, 0)
}

pub fn ends_with(s: &str, p: &str) -> (r: bool)
    ensures
        r == stands_at(s@, p@, s@.len() - p@.len()),
{
    let v = chars_of(s);
    let w = chars_of(p);
    w.len() <= v.len() && is_at(&v, &w, v.len() - w.len())
}

/// The first position, from `from` on, of the character `c`, or the length of the text.
pub open spec fn cut(s: Seq<char>, c: char, from: int) -> int
    decreases s.len() - from,
{
    if from >= s.len() || s[from] == c {
        from
    } else {
        cut(s, c, from + 1)
    }
}

pub proof fn lemma_cut(s: Seq<char>, c: char, from: int)
    requires
        0 <= from <= s.len(),
    ensures
        from <= cut(s, c, from) <= s.len(),
        cut(s, c, from) < s.len() ==> s[cut(s, c, from)] == c,
        forall|j: int| from <= j < cut(s, c, from) ==> s[j] != c,
    decreases s.len() - from,
{
    if from < s.len() && s[from] != c {
        lemma_cut(s, c, from + 1);
    }
}

pub fn cut_index(s: &Vec<char>, c: char, from: usize) -> (r: usize)
    requires
        from <= s@.len(),
    ensures
        r == cut(s@, c, from as int),
        from <= r <= s@.len(),
{
    let mut i: usize = from;
    while i < s.len() && s[i] != c
        invariant
            from <= i <= s@.len(),
            cut(s@, c, from as int) == cut(s@, c, i as int),
        decreases s@.len() - i,
    {
        i += 1;
    }
    i
}

/// The text before the first `c`; the whole text where there is none.
pub open spec fn before(s: Seq<char>, c: char) -> Seq<char> {
    s.subrange(0, cut(s, c, 0))
}

pub fn before_char<'a>(s: &'a str, c: char) -> (r: &'a str)
    ensures
        r@ == before(s@, c),
{
    let v = chars_of(s);
    let i = cut_index(&v, c, 0);
    s.substring_char(0, i)
}

/// The texts on the two sides of the first `c`.
pub open spec fn halves(s: Seq<char>, c: char) -> Option<(Seq<char>, Seq<char>)> {
    let i = cut(s, c, 0);
    if i < s.len() {
        Some((s.subrange(0, i), s.subrange(i + 1, s.len() as int)))
    } else {
        None
    }
}

pub fn split_once<'a>(s: &'a str, c: char) -> (r: Option<(&'a str, &'a str)>)
    ensures
        match r {
            Some((a, b)) => halves(s@, c) == Some((a@, b@)),
            None => halves(s@, c) is None,
        },
{
    let v = chars_of(s);
    let i = cut_index(&v, c, 0);
    if i < v.len() {
        Some((s.substring_char(0, i), s.substring_char(i + 1, v.len())))
    } else {
        None
    }
}

/// The lines of a text from position `from` on. A line ends with a line feed, or with a carriage
/// return and a line feed; the last line may lack its end.
pub open spec fn lines_from(s: Seq<char>, from: int) -> Seq<Seq<char>>
    decreases s.len() + 1 - from,
{
    if from < 0 || from >= s.len() {
        Seq::empty()
    } else {
        let e = cut(s, '\n', from);
        let end = if from < e < s.len() && s[e - 1] == '\r' {
            e - 1
        } else {
            e
        };
        proof {
            lemma_cut(s, '\n', from);
        }
        seq![s.subrange(from, end)] + lines_from(s, e + 1)
    }
}

pub open spec fn lines_of(s: Seq<char>) -> Seq<Seq<char>> {
    lines_from(s, 0)
}

pub fn lines(s: &str) -> (r: Vec<String>)
    ensures
        texts(r@) == lines_of(s@),
{
    let v = chars_of(s);
    let n: usize = v.len();
    let mut out: Vec<String> = Vec::new();
    let mut i: usize = 0;
    assert(texts(out@) + lines_from(s@, 0) =~= lines_of(s@));
    while i < n
        invariant
            v@ == s@,
            n == v@.len(),
            texts(out@) + lines_from(s@, i as int) == lines_of(s@),
        decreases n - i,
    {
        let e: usize = cut_index(&v, '\n', i);
        let end: usize = if i < e && e < n && v[e - 1] == '\r' {
            e - 1
        } else {
            e
        };
        let ghost before = texts(out@);
        out.push(string_of(&v, i, end));
        assert(texts(out@) =~= before.push(s@.subrange(i as int, end as int)));
        assert(before.push(s@.subrange(i as int, end as int)) + lines_from(s@, e + 1) =~= before
            + (seq![s@.subrange(i as int, end as int)] + lines_from(s@, e + 1)));
        if e == n {
            assert(lines_from(s@, e + 1) =~= Seq::<Seq<char>>::empty());
            assert(texts(out@) =~= lines_of(s@));
            return out;
        }
        i = e + 1;
    }
    assert(texts(out@) =~= lines_of(s@));
    out
}

/// The first position, from `from` on, whose character is white space or not, as `white` says.
pub open spec fn run_end(s: Seq<char>, white: bool, from: int) -> int
    decreases s.len() - from,
{
    if from >= s.len() || white_space(s[from]) != white {
        from
    } else {
        run_end(s, white, from + 1)
    }
}

pub proof fn lemma_run_end(s: Seq<char>, white: bool, from: int)
    requires
        0 <= from <= s.len(),
    ensures
        from <= run_end(s, white, from) <= s.len(),
        run_end(s, white, from) < s.len() ==> white_space(s[run_end(s, white, from)]) != white,
        forall|j: int| from <= j < run_end(s, white, from) ==> white_space(s[j]) == white,
    decreases s.len() - from,
{
    if from < s.len() && white_space(s[from]) == white {
        lemma_run_end(s, white, from + 1);
    }
}

pub fn run_end_index(s: &Vec<char>, white: bool, from: usize) -> (r: usize)
    requires
        from <= s@.len(),
    ensures
        r == run_end(s@, white, from as int),
        from <= r <= s@.len(),
{
    let mut i: usize = from;
    while i < s.len() && is_white_space(s[i]) == white
        invariant
            from <= i <= s@.len(),
            run_end(s@, white, from as int) == run_end(s@, white, i as int),
        decreases s@.len() - i,
    {
        i += 1;
    }
    i
}

/// The words of a text from position `from` on: its longest runs without white space.
pub open spec fn words_from(s: Seq<char>, from: int) -> Seq<Seq<char>>
    decreases s.len() - from,
{
    if from < 0 || from > s.len() {
        Seq::empty()
    } else {
        let i = run_end(s, true, from);
        let j = run_end(s, false, i);
        proof {
            lemma_run_end(s, true, from);
            lemma_run_end(s, false, i);
        }
        if i >= s.len() {
            Seq::empty()
        } else {
            seq![s.subrange(i, j)] + words_from(s, j)
        }
    }
}

pub open spec fn words_of(s: Seq<char>) -> Seq<Seq<char>> {
    words_from(s, 0)
}

pub fn words(s: &str) -> (r: Vec<String>)
    ensures
        texts(r@) == words_of(s@),
{
    let v = chars_of(s);
    let n: usize = v.len();
    let mut out: Vec<String> = Vec::new();
    let mut i: usize = run_end_index(&v, true, 0);
    let mut at: Ghost<int> = Ghost(0);
    assert(texts(out@) + words_from(s@, 0) =~= words_of(s@));
    while i < n
        invariant
            v@ == s@,
            n == v@.len(),
            0 <= at@ <= i <= n,
            i == run_end(s@, true, at@),
            texts(out@) + words_from(s@, at@) == words_of(s@),
        decreases n - i,
    {
        let j: usize = run_end_index(&v, false, i);
        let ghost before = texts(out@);
        out.push(string_of(&v, i, j));
        assert(texts(out@) =~= before.push(s@.subrange(i as int, j as int)));
        assert(before.push(s@.subrange(i as int, j as int)) + words_from(s@, j as int) =~= before
            + (seq![s@.subrange(i as int, j as int)] + words_from(s@, j as int)));
        proof {
            lemma_run_end(s@, false, i as int);
            lemma_run_end(s@, true, at@);
            at@ = j as int;
        }
        assert(i < j);
        i = run_end_index(&v, true, j);
    }
    assert(texts(out@) =~= words_of(s@));
    out
}

/// The text from position `from` on with every occurrence of `p`, taken from the left, replaced
/// by `r`.
pub open spec fn replaced_from(s: Seq<char>, p: Seq<char>, r: Seq<char>, from: int) -> Seq<char>
    decreases s.len() - from,
{
    if from < 0 || from > s.len() || p.len() == 0 {
        Seq::empty()
    } else {
        proof {
            lemma_find(s, p, from);
        }
        match find_from(s, p, from) {
            Some(i) => s.subrange(from, i) + r + replaced_from(s, p, r, i + p.len() as int),
            None => s.subrange(from, s.len() as int),
        }
    }
}

/// The text with every occurrence of `p`, taken from the left, replaced by `r`.
pub open spec fn replaced(s: Seq<char>, p: Seq<char>, r: Seq<char>) -> Seq<char> {
    replaced_from(s, p, r, 0)
}

pub fn replace(s: &str, p: &str, r: &str) -> (out: String)
    requires
        p@.len() > 0,
    ensures
        out@ == replaced(s@, p@, r@),
{
    let v = chars_of(s);
    let w = chars_of(p);
    let n: usize = v.len();
    let mut out = String::new();
    let mut i: usize = 0;
    assert(out@ + replaced_from(s@, p@, r@, 0) =~= replaced(s@, p@, r@));
    loop
        invariant
            v@ == s@,
            w@ == p@,
            w@.len() > 0,
            n == v@.len(),
            i <= n,
            out@ + replaced_from(s@, p@, r@, i as int) == replaced(s@, p@, r@),
        decreases n - i,
    {
        proof {
            lemma_find(s@, p@, i as int);
        }
        let ghost before = out@;
        match find_index(&v, &w, i) {
            Some(k) => {
                let piece = string_of(&v, i, k);
                out.append(piece.as_str());
                out.append(r);
                assert(before + (s@.subrange(i as int, k as int) + r@ + replaced_from(
                    s@,
                    p@,
                    r@,
                    k + p@.len(),
                )) =~= out@ + replaced_from(s@, p@, r@, k + p@.len()));
                i = k + w.len();
            },
            None => {
                let piece = string_of(&v, i, n);
                out.append(piece.as_str());
                return out;
            },
        }
    }
}

/// The texts put one after another with `sep` between each two.
pub open spec fn joined(parts: Seq<Seq<char>>, sep: Seq<char>) -> Seq<char>
    decreases parts.len(),
{
    if parts.len() == 0 {
        Seq::empty()
    } else if parts.len() == 1 {
        parts[0]
    } else {
        joined(parts.drop_last(), sep) + sep + parts.last()
    }
}

pub fn join_from(v: &Vec<String>, from: usize, sep: &str) -> (r: String)
    requires
        from <= v@.len(),
    ensures
        r@ == joined(texts(v@).skip(from as int), sep@),
{
    let mut out = String::new();
    let mut i: usize = from;
    let ghost parts = texts(v@);
    while i < v.len()
        invariant
            from <= i <= v@.len(),
            parts == texts(v@),
            out@ == joined(parts.subrange(from as int, i as int), sep@),
        decreases v@.len() - i,
    {
        let ghost next = parts.subrange(from as int, i + 1);
        assert(next.drop_last() =~= parts.subrange(from as int, i as int));
        if i > from {
            out.append(sep);
        } else {
            assert(out@ + parts[i as int] =~= parts[i as int]);
        }
        out.append(v[i].as_str());
        i += 1;
    }
    assert(parts.subrange(from as int, i as int) =~= parts.skip(from as int));
    out
}

/// The last `n` texts of a sequence.
pub open spec fn last_of(parts: Seq<Seq<char>>, n: nat) -> Seq<Seq<char>> {
    parts.skip(if parts.len() >= n {
        parts.len() - n
    } else {
        0
    })
}

/// The last `n` lines of a text, joined by line feeds.
pub open spec fn tail_of(s: Seq<char>, n: nat) -> Seq<char> {
    joined(last_of(lines_of(s), n), "\n"@)
}

pub fn tail_lines(s: &str, n: usize) -> (r: String)
    ensures
        r@ == tail_of(s@, n as nat),
{
    let v = lines(s);
    assert(texts(v@).len() == v@.len());
    let start: usize = if v.len() >= n {
        v.len() - n
    } else {
        0
    };
    join_from(&v, start, "\n")
}

/// The first `n` characters of a text.
pub open spec fn first_chars(s: Seq<char>, n: nat) -> Seq<char> {
    if s.len() >= n {
        s.take(n as int)
    } else {
        s
    }
}

/// The last `n` characters of a text.
pub open spec fn last_chars(s: Seq<char>, n: nat) -> Seq<char> {
    if s.len() >= n {
        s.skip(s.len() - n)
    } else {
        s
    }
}

pub fn keep_first(s: &str, n: usize) -> (r: String)
    ensures
        r@ == first_chars(s@, n as nat),
{
    let len: usize = s.unicode_len();
    if len > n {
        s.substring_char(0, n).to_owned()
    } else {
        assert(len == n ==> s@.take(n as int) =~= s@);
        s.to_owned()
    }
}

pub fn keep_last(s: &str, n: usize) -> (r: String)
    ensures
        r@ == last_chars(s@, n as nat),
{
    let len: usize = s.unicode_len();
    if len > n {
        assert(s@.skip(len - n) =~= s@.subrange(len - n, len as int));
        s.substring_char(len - n, len).to_owned()
    } else {
        assert(len == n ==> s@.skip(len - n) =~= s@);
        s.to_owned()
    }
}

/// An ASCII capital letter as its small letter, any other character as it is.
pub open spec fn ascii_lower(c: char) -> char {
    if 'A' <= c <= 'Z' {
        ((c as u8) + 32) as char
    } else {
        c
    }
}

pub open spec fn ascii_lowered(s: Seq<char>) -> Seq<char> {
    s.map_values(|c: char| ascii_lower(c))
}

pub fn eq_ignore_ascii_case(a: &str, b: &str) -> (r: bool)
    ensures
        r == (ascii_lowered(a@) == ascii_lowered(b@)),
{
    let v = chars_of(a);
    let w = chars_of(b);
    if v.len() != w.len() {
        assert(ascii_lowered(a@).len() != ascii_lowered(b@).len());
        return false;
    }
    let mut i: usize = 0;
    while i < v.len()
        invariant
            i <= v@.len(),
            v@ == a@,
            w@ == b@,
            v@.len() == w@.len(),
            forall|j: int| 0 <= j < i ==> ascii_lower(v@[j]) == ascii_lower(w@[j]),
        decreases v@.len() - i,
    {
        if lower_char(v[i]) != lower_char(w[i]) {
            assert(ascii_lowered(a@)[i as int] != ascii_lowered(b@)[i as int]);
            return false;
        }
        i += 1;
    }
    assert(ascii_lowered(a@) =~= ascii_lowered(b@));
    true
}

pub fn lower_char(c: char) -> (r: char)
    ensures
        r == ascii_lower(c),
{
    if 'A' <= c && c <= 'Z' {
        ((c as u8) + 32) as char
    } else {
        c
    }
}

/// A text stands in another one exactly where the other is made of something, the text, and
/// something.
pub proof fn law_has_text_is_a_middle_part(s: Seq<char>, p: Seq<char>)
    ensures
        forall|a: Seq<char>, b: Seq<char>| s == #[trigger] (a + p + b) ==> has_text(s, p),
        has_text(s, p) ==> exists|a: Seq<char>, b: Seq<char>| s == #[trigger] (a + p + b),
{
    assert forall|a: Seq<char>, b: Seq<char>| s == #[trigger] (a + p + b) implies has_text(s, p) by {
        assert(s.subrange(a.len() as int, (a.len() + p.len()) as int) =~= p);
        assert(stands_at(s, p, a.len() as int));
    }
    if has_text(s, p) {
        let i = choose|i: int| stands_at(s, p, i);
        let a = s.subrange(0, i);
        let b = s.subrange(i + p.len(), s.len() as int);
        assert(s =~= a + p + b);
    }
}

/// The first place of a text in another one: nothing before it holds the text.
pub proof fn law_find_gives_the_first_place(s: Seq<char>, p: Seq<char>)
    ensures
        match find_from(s, p, 0) {
            Some(i) => {
                &&& 0 <= i && i + p.len() <= s.len()
                &&& s.subrange(i, i + p.len()) == p
                &&& forall|j: int|
                    0 <= j < i && j + p.len() <= s.len() ==> #[trigger] s.subrange(j, j + p.len())
                        != p
            },
            None => forall|j: int|
                0 <= j && j + p.len() <= s.len() ==> #[trigger] s.subrange(j, j + p.len()) != p,
        },
{
    lemma_find(s, p, 0);
    match find_from(s, p, 0) {
        Some(i) => {
            assert forall|j: int| 0 <= j < i && j + p.len() <= s.len() implies #[trigger] s.subrange(
                j,
                j + p.len(),
            ) != p by {
                assert(!stands_at(s, p, j));
            }
        },
        None => {
            assert forall|j: int| 0 <= j && j + p.len() <= s.len() implies #[trigger] s.subrange(
                j,
                j + p.len(),
            ) != p by {
                assert(!stands_at(s, p, j));
            }
        },
    }
}

proof fn lemma_trimmed_start(s: Seq<char>) -> (i: int)
    ensures
        0 <= i <= s.len(),
        trimmed_start(s) == s.subrange(i, s.len() as int),
        forall|k: int| 0 <= k < i ==> white_space(#[trigger] s[k]),
        i < s.len() ==> !white_space(s[i]),
    decreases s.len(),
{
    if s.len() > 0 && white_space(s[0]) {
        let i = lemma_trimmed_start(s.drop_first());
        assert(s.drop_first().subrange(i, s.len() - 1) =~= s.subrange(i + 1, s.len() as int));
        assert forall|k: int| 0 <= k < i + 1 implies white_space(#[trigger] s[k]) by {
            if k > 0 {
                assert(s.drop_first()[k - 1] == s[k]);
            }
        }
        i + 1
    } else {
        assert(s.subrange(0, s.len() as int) =~= s);
        0
    }
}

proof fn lemma_trimmed_end(s: Seq<char>) -> (j: int)
    ensures
        0 <= j <= s.len(),
        trimmed_end(s) == s.subrange(0, j),
        forall|k: int| j <= k < s.len() ==> white_space(#[trigger] s[k]),
        0 < j ==> !white_space(s[j - 1]),
    decreases s.len(),
{
    if s.len() > 0 && white_space(s.last()) {
        let j = lemma_trimmed_end(s.drop_last());
        assert(s.drop_last().subrange(0, j) =~= s.subrange(0, j));
        assert forall|k: int| j <= k < s.len() implies white_space(#[trigger] s[k]) by {
            if k < s.len() - 1 {
                assert(s.drop_last()[k] == s[k]);
            }
        }
        j
    } else {
        assert(s.subrange(0, s.len() as int) =~= s);
        s.len() as int
    }
}

/// To trim a text takes white space away at its two ends, and all of it: what is left begins and
/// ends with another character, and nothing else is lost.
pub proof fn law_trim_takes_outer_white_space(s: Seq<char>)
    ensures
        exists|i: int, j: int|
            0 <= i <= j <= s.len() && trimmed(s) == #[trigger] s.subrange(i, j) && (forall|k: int|
                0 <= k < i || j <= k < s.len() ==> white_space(#[trigger] s[k])),
        trimmed(s).len() > 0 ==> !white_space(trimmed(s)[0]) && !white_space(trimmed(s).last()),
        white_space(' ') && white_space('\n') && white_space('\t') && white_space('\r'),
{
    let i = lemma_trimmed_start(s);
    let t = s.subrange(i, s.len() as int);
    let n = lemma_trimmed_end(t);
    assert(t.subrange(0, n) =~= s.subrange(i, i + n));
    assert forall|k: int| 0 <= k < i || i + n <= k < s.len() implies white_space(#[trigger] s[k]) by {
        if k >= i + n {
            assert(t[k - i] == s[k]);
        }
    }
    assert(trimmed(s) == s.subrange(i, i + n));
    if n > 0 {
        assert(t[n - 1] == s[i + n - 1]);
    }
}

/// Letters, digits and the marks of this library's texts are not white space.
pub proof fn law_visible_ascii_is_not_white_space(c: char)
    requires
        0x21 <= c as u32 <= 0x7e,
    ensures
        !white_space(c),
{
}

/// The first mark behind a text that holds none.
pub proof fn lemma_cut_behind(a: Seq<char>, c: char, b: Seq<char>, from: int)
    requires
        0 <= from <= a.len(),
        forall|j: int| 0 <= j < a.len() ==> a[j] != c,
    ensures
        cut(a + seq![c] + b, c, from) == a.len(),
    decreases a.len() - from,
{
    let s = a + seq![c] + b;
    if from < a.len() {
        assert(s[from] == a[from]);
        lemma_cut_behind(a, c, b, from + 1);
    } else {
        assert(s[from] == c);
    }
}

/// A text is split at its first mark: what stands before it holds none.
pub proof fn law_split_at_the_first_mark(a: Seq<char>, c: char, b: Seq<char>)
    requires
        !a.contains(c),
    ensures
        halves(a + seq![c] + b, c) == Some((a, b)),
        before(a + seq![c] + b, c) == a,
        halves(a, c) is None,
        before(a, c) == a,
{
    assert forall|j: int| 0 <= j < a.len() implies a[j] != c by {
        if a[j] == c {
            assert(a.contains(c));
        }
    }
    let s = a + seq![c] + b;
    lemma_cut_behind(a, c, b, 0);
    assert(s.subrange(0, a.len() as int) =~= a);
    assert(s.subrange(a.len() as int + 1, s.len() as int) =~= b);
    lemma_cut(a, c, 0);
    assert(cut(a, c, 0) == a.len());
    assert(a.subrange(0, a.len() as int) =~= a);
}

/// The first mark does not depend on what stands before the place from which it is looked for.
pub proof fn lemma_cut_shift(s: Seq<char>, c: char, by: int, from: int)
    requires
        0 <= by <= from <= s.len(),
    ensures
        cut(s, c, from) == by + cut(s.skip(by), c, from - by),
    decreases s.len() - from,
{
    if from < s.len() {
        assert(s.skip(by)[from - by] == s[from]);
        if s[from] != c {
            lemma_cut_shift(s, c, by, from + 1);
        }
    }
}

proof fn lemma_lines_shift(s: Seq<char>, by: int, from: int)
    requires
        0 <= by <= from,
        by <= s.len(),
    ensures
        lines_from(s, from) == lines_from(s.skip(by), from - by),
    decreases s.len() + 1 - from,
{
    let t = s.skip(by);
    if from < s.len() {
        lemma_cut_shift(s, '\n', by, from);
        lemma_cut(s, '\n', from);
        let e = cut(s, '\n', from);
        if from < e {
            assert(t[e - by - 1] == s[e - 1]);
        }
        let end = if from < e < s.len() && s[e - 1] == '\r' {
            e - 1
        } else {
            e
        };
        assert(s.subrange(from, end) =~= t.subrange(from - by, end - by));
        lemma_lines_shift(s, by, e + 1);
    }
}

/// The lines of a text, read from its start: a line feed ends a line, and so does a carriage return
/// before one, and the rest follows; what has no line feed is one line, and nothing is none.
pub proof fn law_lines_one_by_one(line: Seq<char>, rest: Seq<char>)
    requires
        !line.contains('\n'),
    ensures
        lines_of(Seq::empty()) == Seq::<Seq<char>>::empty(),
        line.len() > 0 ==> lines_of(line) == seq![line],
        line.len() == 0 || line.last() != '\r' ==> lines_of(line + seq!['\n'] + rest) == seq![line]
            + lines_of(rest),
        lines_of(line + seq!['\r', '\n'] + rest) == seq![line] + lines_of(rest),
{
    law_split_at_the_first_mark(line, '\n', rest);
    let n = line.len() as int;
    if n > 0 {
        lemma_cut(line, '\n', 0);
        assert(cut(line, '\n', 0) == n) by {
            if cut(line, '\n', 0) < n {
                assert(line.contains('\n'));
            }
        }
        assert(line.subrange(0, n) =~= line);
        assert(lines_from(line, n + 1) =~= Seq::<Seq<char>>::empty());
        assert(lines_of(line) =~= seq![line]);
    }
    let s = line + seq!['\n'] + rest;
    assert forall|j: int| 0 <= j < line.len() implies line[j] != '\n' by {
        if line[j] == '\n' {
            assert(line.contains('\n'));
        }
    }
    lemma_cut_behind(line, '\n', rest, 0);
    lemma_lines_shift(s, n + 1, n + 1);
    assert(s.skip(n + 1) =~= rest);
    if n > 0 {
        assert(s[n - 1] == line.last());
    }
    assert(s.subrange(0, n) =~= line);
    let held = line.push('\r');
    let t = line + seq!['\r', '\n'] + rest;
    assert(t =~= held + seq!['\n'] + rest);
    lemma_cut_behind(held, '\n', rest, 0);
    lemma_lines_shift(t, n + 2, n + 2);
    assert(t.skip(n + 2) =~= rest);
    assert(t[n] == '\r');
    assert(t.subrange(0, n) =~= line);
}

proof fn lemma_run_shift(s: Seq<char>, white: bool, by: int, from: int)
    requires
        0 <= by <= from <= s.len(),
    ensures
        run_end(s, white, from) == by + run_end(s.skip(by), white, from - by),
    decreases s.len() - from,
{
    if from < s.len() {
        assert(s.skip(by)[from - by] == s[from]);
        if white_space(s[from]) == white {
            lemma_run_shift(s, white, by, from + 1);
        }
    }
}

proof fn lemma_words_shift(s: Seq<char>, by: int, from: int)
    requires
        0 <= by <= from <= s.len(),
    ensures
        words_from(s, from) == words_from(s.skip(by), from - by),
    decreases s.len() - from,
{
    let t = s.skip(by);
    let i = run_end(s, true, from);
    lemma_run_end(s, true, from);
    lemma_run_shift(s, true, by, from);
    if i < s.len() {
        let j = run_end(s, false, i);
        lemma_run_end(s, false, i);
        lemma_run_shift(s, false, by, i);
        assert(s.subrange(i, j) =~= t.subrange(i - by, j - by));
        lemma_words_shift(s, by, j);
    }
}

/// The words of a text, read from its start: white space in front counts for nothing, a word goes
/// up to the next white space, and the rest follows.
pub proof fn law_words_one_by_one(word: Seq<char>, c: char, rest: Seq<char>)
    requires
        forall|k: int| 0 <= k < word.len() ==> !white_space(#[trigger] word[k]),
        white_space(c),
    ensures
        words_of(Seq::empty()) == Seq::<Seq<char>>::empty(),
        words_of(seq![c] + rest) == words_of(rest),
        word.len() > 0 ==> words_of(word) == seq![word],
        word.len() > 0 ==> words_of(word + seq![c] + rest) == seq![word] + words_of(rest),
{
    let s = seq![c] + rest;
    assert(s.skip(1) =~= rest);
    assert(s[0] == c);
    lemma_run_end(s, true, 1);
    assert(run_end(s, true, 0) == run_end(s, true, 1));
    lemma_words_shift(s, 1, 1);
    assert(words_of(s) == words_from(s, 1));
    assert(words_of(Seq::<char>::empty()) =~= Seq::<Seq<char>>::empty());
    if word.len() > 0 {
        let n = word.len() as int;
        lemma_run_end(word, false, 0);
        assert(run_end(word, true, 0) == 0);
        assert(run_end(word, false, 0) == n);
        assert(word.subrange(0, n) =~= word);
        assert(words_from(word, n) =~= Seq::<Seq<char>>::empty());
        assert(words_of(word) =~= seq![word]);
        let t = word + seq![c] + rest;
        lemma_run_end(t, false, 0);
        assert(t[0] == word[0]);
        assert(run_end(t, true, 0) == 0);
        assert(t[n] == c);
        assert forall|k: int| 0 <= k < n implies !white_space(t[k]) by {
            assert(t[k] == word[k]);
        }
        assert(run_end(t, false, 0) == n);
        assert(t.subrange(0, n) =~= word);
        lemma_words_shift(t, n, n);
        assert(t.skip(n) =~= s);
    }
}

proof fn lemma_find_shift(s: Seq<char>, p: Seq<char>, by: int, from: int)
    requires
        0 <= by <= from,
        by <= s.len(),
    ensures
        find_from(s, p, from) == (match find_from(s.skip(by), p, from - by) {
            Some(i) => Some(by + i),
            None => None,
        }),
    decreases s.len() + 1 - from,
{
    let t = s.skip(by);
    if from + p.len() <= s.len() {
        assert(s.subrange(from, from + p.len()) =~= t.subrange(from - by, from - by + p.len()));
        assert(stands_at(s, p, from) == stands_at(t, p, from - by));
        if !stands_at(s, p, from) {
            lemma_find_shift(s, p, by, from + 1);
        }
    }
}

proof fn lemma_replaced_shift(s: Seq<char>, p: Seq<char>, r: Seq<char>, by: int, from: int)
    requires
        0 <= by <= from <= s.len(),
        p.len() > 0,
    ensures
        replaced_from(s, p, r, from) == replaced_from(s.skip(by), p, r, from - by),
    decreases s.len() - from,
{
    let t = s.skip(by);
    lemma_find_shift(s, p, by, from);
    lemma_find(s, p, from);
    lemma_find(t, p, from - by);
    match find_from(s, p, from) {
        Some(i) => {
            assert(s.subrange(from, i) =~= t.subrange(from - by, i - by));
            lemma_replaced_shift(s, p, r, by, i + p.len() as int);
        },
        None => {
            assert(s.subrange(from, s.len() as int) =~= t.subrange(from - by, t.len() as int));
        },
    }
}

/// To replace a text in another one: what does not hold it stays as it is; else what stands before
/// its first place stays, the text gives way to the other one, and the rest is treated alike.
pub proof fn law_replace_from_the_left(s: Seq<char>, p: Seq<char>, r: Seq<char>, a: Seq<char>, b: Seq<char>)
    requires
        p.len() > 0,
    ensures
        !has_text(s, p) ==> replaced(s, p, r) == s,
        s == a + p + b && (forall|j: int| 0 <= j < a.len() ==> !stands_at(s, p, j))
            ==> replaced(s, p, r) == a + r + replaced(b, p, r),
{
    lemma_find(s, p, 0);
    if !has_text(s, p) {
        if let Some(i) = find_from(s, p, 0) {
            assert(stands_at(s, p, i));
        }
        assert(s.subrange(0, s.len() as int) =~= s);
    }
    if s == a + p + b && (forall|j: int| 0 <= j < a.len() ==> !stands_at(s, p, j)) {
        let n = a.len() as int;
        assert(s.subrange(n, n + p.len()) =~= p);
        assert(stands_at(s, p, n));
        assert(find_from(s, p, 0) == Some(n));
        assert(s.subrange(0, n) =~= a);
        lemma_replaced_shift(s, p, r, n + p.len(), n + p.len());
        assert(s.skip(n + p.len()) =~= b);
    }
}

/// Texts are joined one by one, with the separator before each but the first.
pub proof fn law_join_one_by_one(parts: Seq<Seq<char>>, x: Seq<char>, sep: Seq<char>)
    ensures
        joined(Seq::empty(), sep) == Seq::<char>::empty(),
        joined(seq![x], sep) == x,
        parts.len() > 0 ==> joined(parts.push(x), sep) == joined(parts, sep) + sep + x,
{
    assert(parts.push(x).drop_last() =~= parts);
}

/// The tail of a text is made of its last lines: no more than were asked for, and all that there
/// are where there are fewer.
pub proof fn law_tail_holds_the_last_lines(s: Seq<char>, n: nat)
    ensures
        exists|k: int|
            0 <= k <= lines_of(s).len() && (lines_of(s).len() - k == n || k == 0
                && lines_of(s).len() < n) && tail_of(s, n) == joined(
                #[trigger] lines_of(s).skip(k),
                seq!['\n'],
            ),
{
    reveal_strlit("\n");
    assert("\n"@ =~= seq!['\n']);
    let all = lines_of(s);
    let k = if all.len() >= n {
        all.len() - n
    } else {
        0
    };
    assert(tail_of(s, n) == joined(all.skip(k), seq!['\n']));
}

/// The first and the last characters of a text are its two ends: as many as were asked for, and the
/// whole text where it has fewer.
pub proof fn law_ends_of_a_text(s: Seq<char>, n: nat)
    ensures
        s.len() <= n ==> first_chars(s, n) == s && last_chars(s, n) == s,
        s.len() >= n ==> first_chars(s, n).len() == n && last_chars(s, n).len() == n,
        forall|i: int|
            0 <= i < first_chars(s, n).len() ==> #[trigger] first_chars(s, n)[i] == s[i],
        forall|i: int|
            0 <= i < last_chars(s, n).len() ==> #[trigger] last_chars(s, n)[i] == s[i + s.len()
                - last_chars(s, n).len()],
{
    if s.len() == n {
        assert(s.take(n as int) =~= s);
        assert(s.skip(0) =~= s);
    }
}

/// Letter case does not count where texts are compared by their small ASCII letters, and all else
/// does.
pub proof fn law_ascii_case_does_not_count(c: char)
    ensures
        'a' <= c <= 'z' ==> ascii_lower(c) == c && ascii_lower((c as u8 - 32) as char) == c,
        !('A' <= c <= 'Z') ==> ascii_lower(c) == c,
        'A' <= c <= 'Z' ==> ascii_lower(c) as int == c as int + 32,
{
}

/// A list stands for the texts of its strings, one for one and in their order.
pub proof fn law_views_of_lists(v: Seq<String>, i: int, s: String)
    ensures
        texts(v).len() == v.len(),
        0 <= i < v.len() ==> texts(v)[i] == v[i]@,
        opt_text(Some(s)) == Some(s@),
        opt_text(None) is None,
{
}

/// The white space characters, one by one.
pub proof fn law_white_space_one_by_one(c: char)
    ensures
        white_space(c) <==> seq![
            0x9int, 0xa, 0xb, 0xc, 0xd, 0x20, 0x85, 0xa0, 0x1680, 0x2000, 0x2001, 0x2002, 0x2003,
            0x2004, 0x2005, 0x2006, 0x2007, 0x2008, 0x2009, 0x200a, 0x2028, 0x2029, 0x202f, 0x205f,
            0x3000,
        ].contains(c as int),
{
    let all = seq![
        0x9int, 0xa, 0xb, 0xc, 0xd, 0x20, 0x85, 0xa0, 0x1680, 0x2000, 0x2001, 0x2002, 0x2003,
        0x2004, 0x2005, 0x2006, 0x2007, 0x2008, 0x2009, 0x200a, 0x2028, 0x2029, 0x202f, 0x205f,
        0x3000,
    ];
    if white_space(c) {
        let n = c as int;
        let i = if n <= 0xd {
            n - 9
        } else if n == 0x20 {
            5
        } else if n == 0x85 {
            6
        } else if n == 0xa0 {
            7
        } else if n == 0x1680 {
            8
        } else if n <= 0x200a {
            9 + n - 0x2000
        } else if n <= 0x2029 {
            20 + n - 0x2028
        } else if n == 0x202f {
            22
        } else if n == 0x205f {
            23
        } else {
            24
        };
        assert(all[i] == n);
    }
}

} // verus!
