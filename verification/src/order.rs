//! Lexicographic order of texts, and stable sorting.

use crate::text::chars_of;
use vstd::prelude::*;

verus! {

/// Whether `a` comes before `b`, character by character.
pub open spec fn text_before(a: Seq<char>, b: Seq<char>) -> bool
    decreases a.len(),
{
    if b.len() == 0 {
        false
    } else if a.len() == 0 {
        true
    } else if a[0] == b[0] {
        text_before(a.drop_first(), b.drop_first())
    } else {
        a[0] < b[0]
    }
}

pub fn comes_before(a: &str, b: &str) -> (r: bool)
    ensures
        r == text_before(a@, b@),
{
    let v = chars_of(a);
    let w = chars_of(b);
    let mut i: usize = 0;
    assert(a@.skip(0) =~= a@);
    assert(b@.skip(0) =~= b@);
    loop
        invariant
            i <= v@.len(),
            i <= w@.len(),
            v@ == a@,
            w@ == b@,
            text_before(a@, b@) == text_before(a@.skip(i as int), b@.skip(i as int)),
        decreases v@.len() - i,
    {
        if i == w.len() {
            return false;
        }
        if i == v.len() {
            return true;
        }
        assert(a@.skip(i as int).drop_first() =~= a@.skip(i + 1));
        assert(b@.skip(i as int).drop_first() =~= b@.skip(i + 1));
        if v[i] != w[i] {
            return v[i] < w[i];
        }
        i += 1;
    }
}

/// No text comes before itself.
pub proof fn lemma_before_irreflexive(a: Seq<char>)
    ensures
        !text_before(a, a),
    decreases a.len(),
{
    if a.len() > 0 {
        lemma_before_irreflexive(a.drop_first());
    }
}

pub proof fn lemma_before_transitive(a: Seq<char>, b: Seq<char>, c: Seq<char>)
    requires
        text_before(a, b),
        text_before(b, c),
    ensures
        text_before(a, c),
    decreases a.len(),
{
    if a.len() > 0 && b.len() > 0 && c.len() > 0 && a[0] == b[0] && b[0] == c[0] {
        lemma_before_transitive(a.drop_first(), b.drop_first(), c.drop_first());
    }
}

pub proof fn lemma_before_total(a: Seq<char>, b: Seq<char>)
    ensures
        text_before(a, b) || text_before(b, a) || a == b,
    decreases a.len(),
{
    if a.len() > 0 && b.len() > 0 && a[0] == b[0] {
        lemma_before_total(a.drop_first(), b.drop_first());
        if a.drop_first() == b.drop_first() {
            assert(a =~= seq![a[0]] + a.drop_first());
            assert(b =~= seq![b[0]] + b.drop_first());
        }
    } else if a.len() == 0 && b.len() == 0 {
        assert(a =~= b);
    }
}

/// A strict order in which not coming before is transitive: what sorting asks of an order.
pub open spec fn strict_weak<T>(lt: spec_fn(T, T) -> bool) -> bool {
    &&& forall|a: T| !#[trigger] lt(a, a)
    &&& forall|a: T, b: T, c: T| #[trigger] lt(a, b) && #[trigger] lt(b, c) ==> lt(a, c)
    &&& forall|a: T, b: T, c: T| !(#[trigger] lt(a, b)) && !(#[trigger] lt(b, c)) ==> !lt(a, c)
}

/// `x` put behind everything in `t` that it does not come before.
pub open spec fn placed<T>(t: Seq<T>, x: T, lt: spec_fn(T, T) -> bool) -> Seq<T>
    decreases t.len(),
{
    if t.len() > 0 && lt(x, t.last()) {
        placed(t.drop_last(), x, lt).push(t.last())
    } else {
        t.push(x)
    }
}

/// `s` in the order `lt`, with items that tie kept in the order in which they stand in `s`.
pub open spec fn stable_sorted<T>(s: Seq<T>, lt: spec_fn(T, T) -> bool) -> Seq<T>
    decreases s.len(),
{
    if s.len() == 0 {
        s
    } else {
        placed(stable_sorted(s.drop_last(), lt), s.last(), lt)
    }
}

/// The number of items at the end of `t` that `x` comes before.
pub open spec fn passed<T>(t: Seq<T>, x: T, lt: spec_fn(T, T) -> bool) -> nat
    decreases t.len(),
{
    if t.len() > 0 && lt(x, t.last()) {
        1 + passed(t.drop_last(), x, lt)
    } else {
        0
    }
}

pub proof fn lemma_placed_inserts<T>(t: Seq<T>, x: T, lt: spec_fn(T, T) -> bool)
    ensures
        passed(t, x, lt) <= t.len(),
        placed(t, x, lt) == t.insert(t.len() - passed(t, x, lt), x),
    decreases t.len(),
{
    if t.len() > 0 && lt(x, t.last()) {
        lemma_placed_inserts(t.drop_last(), x, lt);
        assert(placed(t, x, lt) =~= t.insert(t.len() - passed(t, x, lt), x));
    } else {
        assert(placed(t, x, lt) =~= t.insert(t.len() as int, x));
    }
}

/// What `x` comes before at the end of `t`.
pub proof fn lemma_passed<T>(t: Seq<T>, x: T, lt: spec_fn(T, T) -> bool)
    ensures
        passed(t, x, lt) <= t.len(),
        forall|i: int| t.len() - passed(t, x, lt) <= i < t.len() ==> lt(x, #[trigger] t[i]),
        passed(t, x, lt) < t.len() ==> !lt(x, t[t.len() - passed(t, x, lt) - 1]),
    decreases t.len(),
{
    if t.len() > 0 && lt(x, t.last()) {
        let head = t.drop_last();
        lemma_passed(head, x, lt);
        assert forall|i: int| t.len() - passed(t, x, lt) <= i < t.len() implies lt(
            x,
            #[trigger] t[i],
        ) by {
            if i < t.len() - 1 {
                assert(lt(x, head[i]));
            }
        }
    }
}

/// Whether no item of `s` comes before an item that stands in front of it.
pub open spec fn in_order<T>(s: Seq<T>, lt: spec_fn(T, T) -> bool) -> bool {
    forall|i: int, j: int| 0 <= i < j < s.len() ==> !lt(#[trigger] s[j], #[trigger] s[i])
}

proof fn lemma_placed_in_order<T>(t: Seq<T>, x: T, lt: spec_fn(T, T) -> bool)
    requires
        strict_weak(lt),
        in_order(t, lt),
    ensures
        in_order(placed(t, x, lt), lt),
{
    lemma_placed_inserts(t, x, lt);
    lemma_passed(t, x, lt);
    let k = t.len() - passed(t, x, lt);
    let r = placed(t, x, lt);
    assert forall|i: int, j: int| 0 <= i < j < r.len() implies !lt(
        #[trigger] r[j],
        #[trigger] r[i],
    ) by {
        if j == k {
            if i < k - 1 {
                assert(!lt(t[k - 1], t[i]));
                assert(!lt(x, t[k - 1]));
            }
        } else if i == k {
            assert(lt(x, t[j - 1]));
        } else {
            let ti = if i < k { i } else { i - 1 };
            let tj = if j < k { j } else { j - 1 };
            assert(!lt(t[tj], t[ti]));
        }
    }
}

/// A sorted sequence is in order.
pub proof fn law_sorted_in_order<T>(s: Seq<T>, lt: spec_fn(T, T) -> bool)
    requires
        strict_weak(lt),
    ensures
        in_order(stable_sorted(s, lt), lt),
    decreases s.len(),
{
    if s.len() > 0 {
        law_sorted_in_order(s.drop_last(), lt);
        lemma_placed_in_order(stable_sorted(s.drop_last(), lt), s.last(), lt);
    }
}

/// Sorting neither loses nor adds an item.
pub proof fn law_sorted_same_items<T>(s: Seq<T>, lt: spec_fn(T, T) -> bool)
    ensures
        stable_sorted(s, lt).len() == s.len(),
        stable_sorted(s, lt).to_multiset() == s.to_multiset(),
    decreases s.len(),
{
    if s.len() > 0 {
        let t = stable_sorted(s.drop_last(), lt);
        law_sorted_same_items(s.drop_last(), lt);
        lemma_placed_inserts(t, s.last(), lt);
        broadcast use vstd::seq_lib::group_to_multiset_ensures;

        assert(s =~= s.drop_last().push(s.last()));
        lemma_insert_multiset(t, t.len() - passed(t, s.last(), lt), s.last());
    }
}

proof fn lemma_insert_multiset<T>(t: Seq<T>, k: int, x: T)
    requires
        0 <= k <= t.len(),
    ensures
        t.insert(k, x).to_multiset() == t.to_multiset().insert(x),
{
    broadcast use vstd::seq_lib::group_to_multiset_ensures;

}

proof fn lemma_filter_placed<T>(
    t: Seq<T>,
    x: T,
    lt: spec_fn(T, T) -> bool,
    class: spec_fn(T) -> bool,
)
    requires
        forall|a: T, b: T| class(a) && class(b) ==> !#[trigger] lt(a, b),
    ensures
        placed(t, x, lt).filter(class) == t.push(x).filter(class),
    decreases t.len(),
{
    reveal(Seq::filter);
    if t.len() > 0 && lt(x, t.last()) {
        let head = t.drop_last();
        lemma_filter_placed(head, x, lt, class);
        assert(placed(t, x, lt).drop_last() =~= placed(head, x, lt));
        assert(head.push(x).drop_last() =~= head);
        assert(t.push(x).drop_last() =~= t);
        assert(class(x) ==> !class(t.last()));
        let kept = head.filter(class);
        assert(head.push(x).filter(class) == if class(x) {
            kept.push(x)
        } else {
            kept
        });
        assert(t.filter(class) == if class(t.last()) {
            kept.push(t.last())
        } else {
            kept
        });
        assert(t.push(x).filter(class) == if class(x) {
            t.filter(class).push(x)
        } else {
            t.filter(class)
        });
    }
}

/// Items that tie keep their order: of any class in which no item comes before another, the
/// sorted sequence holds the same items in the same order.
pub proof fn law_sorted_stable<T>(
    s: Seq<T>,
    lt: spec_fn(T, T) -> bool,
    class: spec_fn(T) -> bool,
)
    requires
        forall|a: T, b: T| class(a) && class(b) ==> !#[trigger] lt(a, b),
    ensures
        stable_sorted(s, lt).filter(class) == s.filter(class),
    decreases s.len(),
{
    reveal(Seq::filter);
    if s.len() > 0 {
        let t = stable_sorted(s.drop_last(), lt);
        law_sorted_stable(s.drop_last(), lt, class);
        lemma_filter_placed(t, s.last(), lt, class);
        assert(t.push(s.last()).drop_last() =~= t);
    }
}

proof fn lemma_filter_last<T>(t: Seq<T>, keep: spec_fn(T) -> bool)
    requires
        t.filter(keep).len() > 0,
    ensures
        exists|i: int| 0 <= i < t.len() && #[trigger] t[i] == t.filter(keep).last(),
{
    let kept = t.filter(keep);
    assert(kept.contains(kept.last()));
    t.lemma_filter_contains_rev(keep, kept.last());
    let i = t.index_of(kept.last());
    assert(t[i] == kept.last());
}

proof fn lemma_keep_placed<T>(
    t: Seq<T>,
    x: T,
    lt: spec_fn(T, T) -> bool,
    keep: spec_fn(T) -> bool,
)
    requires
        strict_weak(lt),
        in_order(t, lt),
    ensures
        placed(t, x, lt).filter(keep) == if keep(x) {
            placed(t.filter(keep), x, lt)
        } else {
            t.filter(keep)
        },
    decreases t.len(),
{
    reveal(Seq::filter);
    if t.len() > 0 && lt(x, t.last()) {
        let head = t.drop_last();
        lemma_keep_placed(head, x, lt, keep);
        assert(placed(t, x, lt).drop_last() =~= placed(head, x, lt));
        let kept = head.filter(keep);
        if keep(t.last()) {
            assert(t.filter(keep) == kept.push(t.last()));
            assert(kept.push(t.last()).drop_last() =~= kept);
        } else {
            assert(t.filter(keep) == kept);
        }
    } else {
        let kept = t.filter(keep);
        assert(t.push(x).drop_last() =~= t);
        if kept.len() > 0 {
            lemma_filter_last(t, keep);
            let i = choose|i: int| 0 <= i < t.len() && #[trigger] t[i] == kept.last();
            assert(!lt(t.last(), t[i]));
            assert(!lt(x, t[i]));
        }
    }
}

/// To leave items out and then sort is to sort and then leave them out.
pub proof fn law_sorted_then_kept<T>(
    s: Seq<T>,
    lt: spec_fn(T, T) -> bool,
    keep: spec_fn(T) -> bool,
)
    requires
        strict_weak(lt),
    ensures
        stable_sorted(s.filter(keep), lt) == stable_sorted(s, lt).filter(keep),
    decreases s.len(),
{
    reveal(Seq::filter);
    if s.len() > 0 {
        let head = s.drop_last();
        law_sorted_then_kept(head, lt, keep);
        law_sorted_in_order(head, lt);
        lemma_keep_placed(stable_sorted(head, lt), s.last(), lt, keep);
        if keep(s.last()) {
            assert(s.filter(keep) == head.filter(keep).push(s.last()));
            assert(head.filter(keep).push(s.last()).drop_last() =~= head.filter(keep));
        }
    } else {
        assert(s.filter(keep) =~= s);
        assert(stable_sorted(s, lt).filter(keep) =~= s);
    }
}

/// Texts are ordered by the first place in which they differ; a text comes before each longer one
/// that begins with it.
pub proof fn law_first_difference_decides(p: Seq<char>, a: Seq<char>, b: Seq<char>)
    ensures
        a.len() > 0 && b.len() > 0 && a[0] != b[0] ==> (text_before(p + a, p + b) <==> a[0] < b[0]),
        b.len() > 0 ==> text_before(p, p + b),
        !text_before(p + b, p),
    decreases p.len(),
{
    if p.len() > 0 {
        law_first_difference_decides(p.drop_first(), a, b);
        assert((p + a).drop_first() =~= p.drop_first() + a);
        assert((p + b).drop_first() =~= p.drop_first() + b);
    } else {
        assert(p + a =~= a);
        assert(p + b =~= b);
    }
}

} // verus!
