//! References to other tasks inside a text.

use crate::outside::{captures, group_texts, match_texts, regex_matches, LINK_PATTERN};
use crate::text::{list_has, texts};
use vstd::prelude::*;
use vstd::string::*;

verus! {

/// The text of group `i` of a match, where the group took part in it.
pub open spec fn group(groups: Seq<Option<Seq<char>>>, i: int) -> Option<Seq<char>> {
    if 0 <= i < groups.len() {
        groups[i]
    } else {
        None
    }
}

pub fn group_of(groups: &Vec<Option<String>>, i: usize) -> (r: Option<&String>)
    ensures
        group(group_texts(groups@), i as int) == (match r {
            Some(g) => Some(g@),
            None => None,
        }),
{
    if i < groups.len() {
        groups[i].as_ref()
    } else {
        None
    }
}

/// The gid in a match: the old form of a link holds it in group 1, the new form in group 2.
pub open spec fn link_gid(groups: Seq<Option<Seq<char>>>) -> Option<Seq<char>> {
    match group(groups, 1) {
        Some(g) => Some(g),
        None => group(groups, 2),
    }
}

/// The gids of the first `n` matches, each once, in the order in which they first occur.
pub open spec fn distinct_gids(matches: Seq<Seq<Option<Seq<char>>>>, n: int) -> Seq<Seq<char>>
    decreases n,
{
    if n <= 0 {
        Seq::empty()
    } else {
        let earlier = distinct_gids(matches, n - 1);
        match link_gid(matches[n - 1]) {
            Some(g) => if earlier.contains(g) {
                earlier
            } else {
                earlier.push(g)
            },
            None => earlier,
        }
    }
}

/// The gids of the tasks that a text links to.
pub open spec fn linked_gids(text: Seq<char>) -> Seq<Seq<char>> {
    let matches = regex_matches(LINK_PATTERN@, false, text);
    distinct_gids(matches, matches.len() as int)
}

/// The gids in the matches of the pattern for links, each once.
pub fn gids_of_matches(matches: &Vec<Vec<Option<String>>>) -> (r: Vec<String>)
    ensures
        texts(r@) == distinct_gids(match_texts(matches@), matches@.len() as int),
{
    let mut out: Vec<String> = Vec::new();
    let ghost all = match_texts(matches@);
    let mut i: usize = 0;
    while i < matches.len()
        invariant
            i <= matches@.len(),
            all == match_texts(matches@),
            texts(out@) == distinct_gids(all, i as int),
        decreases matches@.len() - i,
    {
        let groups = &matches[i];
        let gid = match group_of(groups, 1) {
            Some(g) => Some(g),
            None => group_of(groups, 2),
        };
        assert(all[i as int] == group_texts(groups@));
        if let Some(g) = gid {
            if !list_has(&out, g.as_str()) {
                let ghost before = out@;
                out.push(g.clone());
                assert(texts(out@) =~= texts(before).push(g@));
            }
        }
        i += 1;
    }
    out
}

/// The gids of the tasks that a text links to, in the old and in the new form of Asana's links.
pub fn extract_linked_gids(text: &str) -> (r: Vec<String>)
    ensures
        texts(r@) == linked_gids(text@),
{
    let matches = captures(LINK_PATTERN, false, text);
    gids_of_matches(&matches)
}

/// No gid is listed twice, and the gid of every match is listed.
pub proof fn law_gids_distinct_and_complete(matches: Seq<Seq<Option<Seq<char>>>>, n: int)
    requires
        0 <= n <= matches.len(),
    ensures
        distinct_gids(matches, n).no_duplicates(),
        forall|i: int|
            0 <= i < n && link_gid(#[trigger] matches[i]) is Some ==> distinct_gids(
                matches,
                n,
            ).contains(link_gid(matches[i])->0),
        forall|j: int|
            0 <= j < distinct_gids(matches, n).len() ==> exists|i: int|
                0 <= i < n && link_gid(#[trigger] matches[i]) == Some(
                    #[trigger] distinct_gids(matches, n)[j],
                ),
    decreases n,
{
    if n > 0 {
        law_gids_distinct_and_complete(matches, n - 1);
        let earlier = distinct_gids(matches, n - 1);
        let now = distinct_gids(matches, n);
        if link_gid(matches[n - 1]) is Some && !earlier.contains(link_gid(matches[n - 1])->0) {
            let g = link_gid(matches[n - 1])->0;
            assert(now == earlier.push(g));
            assert(now[earlier.len() as int] == g);
            assert forall|i: int|
                0 <= i < n && link_gid(#[trigger] matches[i]) is Some implies now.contains(
                link_gid(matches[i])->0,
            ) by {
                if i < n - 1 {
                    let k = earlier.index_of(link_gid(matches[i])->0);
                    assert(now[k] == earlier[k]);
                }
            }
            assert forall|j: int| 0 <= j < now.len() implies exists|i: int|
                0 <= i < n && link_gid(#[trigger] matches[i]) == Some(#[trigger] now[j]) by {
                if j < earlier.len() {
                    assert(now[j] == earlier[j]);
                    let i = choose|i: int|
                        0 <= i < n - 1 && link_gid(#[trigger] matches[i]) == Some(earlier[j]);
                    assert(link_gid(matches[i]) == Some(now[j]));
                } else {
                    assert(link_gid(matches[n - 1]) == Some(now[j]));
                }
            }
        } else {
            assert(now == earlier);
            assert forall|j: int| 0 <= j < now.len() implies exists|i: int|
                0 <= i < n && link_gid(#[trigger] matches[i]) == Some(#[trigger] now[j]) by {
                let i = choose|i: int|
                    0 <= i < n - 1 && link_gid(#[trigger] matches[i]) == Some(earlier[j]);
                assert(link_gid(matches[i]) == Some(now[j]));
            }
        }
    }
}

/// A link gives the gid that its old form holds, else the one that its new form holds.
pub proof fn law_link_gives_its_gid(whole: Option<Seq<char>>, g: Seq<char>, h: Option<Seq<char>>)
    ensures
        link_gid(seq![whole, Some(g), h]) == Some(g),
        link_gid(seq![whole, None, h]) == h,
        link_gid(seq![whole, Some(g)]) == Some(g),
        link_gid(seq![whole]) is None,
        link_gid(Seq::empty()) is None,
{
}

proof fn lemma_gids_by_front(
    a: Seq<Seq<Option<Seq<char>>>>,
    b: Seq<Seq<Option<Seq<char>>>>,
    n: int,
)
    requires
        0 <= n <= a.len(),
        n <= b.len(),
        forall|i: int| 0 <= i < n ==> a[i] == b[i],
    ensures
        distinct_gids(a, n) == distinct_gids(b, n),
    decreases n,
{
    if n > 0 {
        lemma_gids_by_front(a, b, n - 1);
    }
}

/// Gids are listed in the order in which they first occur: one more match adds its gid behind the
/// others, unless it is there.
pub proof fn law_gids_in_order_of_occurrence(
    matches: Seq<Seq<Option<Seq<char>>>>,
    m: Seq<Option<Seq<char>>>,
)
    ensures
        distinct_gids(Seq::empty(), 0) == Seq::<Seq<char>>::empty(),
        ({
            let listed = distinct_gids(matches, matches.len() as int);
            let now = distinct_gids(matches.push(m), matches.len() as int + 1);
            match link_gid(m) {
                Some(g) => if exists|i: int| 0 <= i < listed.len() && #[trigger] listed[i] == g {
                    now == listed
                } else {
                    now == listed.push(g)
                },
                None => now == listed,
            }
        }),
{
    let n = matches.len() as int;
    lemma_gids_by_front(matches.push(m), matches, n);
    assert(matches.push(m)[n] == m);
}

/// A text links to exactly the gids that its matches of the pattern for links give.
pub proof fn law_text_links_to_the_gids_of_its_matches(text: Seq<char>, g: Seq<char>)
    ensures
        linked_gids(text).contains(g) <==> exists|i: int|
            0 <= i < regex_matches(LINK_PATTERN@, false, text).len() && link_gid(
                #[trigger] regex_matches(LINK_PATTERN@, false, text)[i],
            ) == Some(g),
        linked_gids(text).no_duplicates(),
{
    let m = regex_matches(LINK_PATTERN@, false, text);
    let n = m.len() as int;
    law_gids_distinct_and_complete(m, n);
    if linked_gids(text).contains(g) {
        let j = linked_gids(text).index_of(g);
        assert(distinct_gids(m, n)[j] == g);
    }
}

} // verus!
