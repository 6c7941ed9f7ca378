//! Text operations on character sequences: search, replacement (single pass and
//! repeated until no occurrence is left), suffix test and joining.

use vstd::prelude::*;

verus! {

/// `p` occurs in `s` at index `i`.
pub open spec fn matches_at(s: Seq<char>, p: Seq<char>, i: int) -> bool {
    0 <= i && i + p.len() <= s.len() && s.subrange(i, i + p.len()) == p
}

/// `p` occurs somewhere in `s` (the empty sequence occurs in every sequence).
pub open spec fn occurs_in(s: Seq<char>, p: Seq<char>) -> bool {
    exists|i: int| #[trigger] matches_at(s, p, i)
}

/// One pass of replacement: every leftmost, non-overlapping occurrence of `p`
/// in `s` is replaced by `t`, scanning left to right; an empty `p` occurs before
/// each character and at the end.
pub open spec fn replace_each(s: Seq<char>, p: Seq<char>, t: Seq<char>) -> Seq<char>
    decreases s.len(),
{
    if p.len() == 0 {
        if s.len() == 0 {
            t
        } else {
            t + seq![s[0]] + replace_each(s.subrange(1, s.len() as int), p, t)
        }
    } else if s.len() < p.len() {
        s
    } else if s.subrange(0, p.len() as int) == p {
        t + replace_each(s.subrange(p.len() as int, s.len() as int), p, t)
    } else {
        seq![s[0]] + replace_each(s.subrange(1, s.len() as int), p, t)
    }
}

/// `s` after `n` passes of replacement.
pub open spec fn rewrite_n(s: Seq<char>, p: Seq<char>, t: Seq<char>, n: nat) -> Seq<char>
    decreases n,
{
    if n == 0 {
        s
    } else {
        replace_each(rewrite_n(s, p, t, (n - 1) as nat), p, t)
    }
}

/// After `n` passes `p` no longer occurs, and it still occurred after each earlier count.
pub open spec fn is_first_fixpoint(s: Seq<char>, p: Seq<char>, t: Seq<char>, n: nat) -> bool {
    &&& !occurs_in(rewrite_n(s, p, t, n), p)
    &&& forall|j: nat| j < n ==> occurs_in(#[trigger] rewrite_n(s, p, t, j), p)
}

/// Repeated replacement reaches a text in which `p` does not occur.
pub open spec fn replace_terminates(s: Seq<char>, p: Seq<char>, t: Seq<char>) -> bool {
    exists|n: nat| !occurs_in(#[trigger] rewrite_n(s, p, t, n), p)
}

/// The text that repeated replacement stops at.
pub open spec fn replace_fixpoint(s: Seq<char>, p: Seq<char>, t: Seq<char>) -> Seq<char> {
    rewrite_n(s, p, t, choose|n: nat| is_first_fixpoint(s, p, t, n))
}

/// `suffix` is a suffix of `s`.
pub open spec fn has_suffix(s: Seq<char>, suffix: Seq<char>) -> bool {
    suffix.len() <= s.len() && s.subrange(s.len() - suffix.len(), s.len() as int) == suffix
}

/// The parts, in order, with `sep` between each two neighbours.
pub open spec fn join(parts: Seq<Seq<char>>, sep: Seq<char>) -> Seq<char>
    decreases parts.len(),
{
    if parts.len() == 0 {
        seq![]
    } else if parts.len() == 1 {
        parts[0]
    } else {
        join(parts.drop_last(), sep) + sep + parts.last()
    }
}

proof fn lemma_empty_occurs(s: Seq<char>, p: Seq<char>)
    requires
        p.len() == 0,
    ensures
        occurs_in(s, p),
{
    assert(s.subrange(0, 0) =~= p);
    assert(matches_at(s, p, 0));
}

proof fn lemma_first_fixpoint_below(s: Seq<char>, p: Seq<char>, t: Seq<char>, n: nat)
    requires
        !occurs_in(rewrite_n(s, p, t, n), p),
    ensures
        exists|k: nat| k <= n && is_first_fixpoint(s, p, t, k),
    decreases n,
{
    if forall|j: nat| j < n ==> occurs_in(#[trigger] rewrite_n(s, p, t, j), p) {
        assert(is_first_fixpoint(s, p, t, n));
    } else {
        let j = choose|j: nat| j < n && !occurs_in(#[trigger] rewrite_n(s, p, t, j), p);
        lemma_first_fixpoint_below(s, p, t, j);
    }
}

proof fn lemma_first_fixpoint_unique(s: Seq<char>, p: Seq<char>, t: Seq<char>, a: nat, b: nat)
    requires
        is_first_fixpoint(s, p, t, a),
        is_first_fixpoint(s, p, t, b),
    ensures
        a == b,
{
    if a < b {
        assert(occurs_in(rewrite_n(s, p, t, a), p));
    } else if b < a {
        assert(occurs_in(rewrite_n(s, p, t, b), p));
    }
}

proof fn lemma_replace_each_short(s: Seq<char>, p: Seq<char>, t: Seq<char>)
    requires
        s.len() < p.len(),
    ensures
        replace_each(s, p, t) == s,
{
}

/// Where `p` does not occur in `s`, repeated replacement stops at once and gives `s`.
pub proof fn law_no_occurrence_unchanged(s: Seq<char>, p: Seq<char>, t: Seq<char>)
    requires
        !occurs_in(s, p),
    ensures
        replace_terminates(s, p, t),
        replace_fixpoint(s, p, t) == s,
{
    assert(rewrite_n(s, p, t, 0) == s);
    assert(is_first_fixpoint(s, p, t, 0));
    let c = choose|n: nat| is_first_fixpoint(s, p, t, n);
    lemma_first_fixpoint_unique(s, p, t, 0, c);
}

/// Repeated replacement leaves no occurrence of `p`, so doing it again changes
/// nothing.
pub proof fn law_replace_recursively_idempotent(s: Seq<char>, p: Seq<char>, t: Seq<char>)
    requires
        replace_terminates(s, p, t),
    ensures
        !occurs_in(replace_fixpoint(s, p, t), p),
        replace_terminates(replace_fixpoint(s, p, t), p, t),
        replace_fixpoint(replace_fixpoint(s, p, t), p, t) == replace_fixpoint(s, p, t),
{
    let n = choose|n: nat| !occurs_in(#[trigger] rewrite_n(s, p, t, n), p);
    lemma_first_fixpoint_below(s, p, t, n);
    let c = choose|k: nat| is_first_fixpoint(s, p, t, k);
    assert(is_first_fixpoint(s, p, t, c));
    law_no_occurrence_unchanged(replace_fixpoint(s, p, t), p, t);
}

/// Where `p` (non-empty) does not occur in `s`, one pass of replacement gives `s`.
pub proof fn lemma_replace_each_no_occurrence(s: Seq<char>, p: Seq<char>, t: Seq<char>)
    requires
        p.len() > 0,
        !occurs_in(s, p),
    ensures
        replace_each(s, p, t) == s,
    decreases s.len(),
{
    if s.len() >= p.len() {
        assert(!matches_at(s, p, 0));
        let rest = s.subrange(1, s.len() as int);
        assert forall|i: int| !matches_at(rest, p, i) by {
            if matches_at(rest, p, i) {
                assert(s.subrange(i + 1, i + 1 + p.len()) =~= rest.subrange(i, i + p.len()));
                assert(matches_at(s, p, i + 1));
            }
        }
        lemma_replace_each_no_occurrence(rest, p, t);
        assert(seq![s[0]] + rest =~= s);
    }
}

/// A character that is not in `p` separates the replacement: nothing is replaced
/// across it.
pub proof fn lemma_replace_each_split(x: Seq<char>, c: char, y: Seq<char>, p: Seq<char>, t: Seq<char>)
    requires
        p.len() > 0,
        !p.contains(c),
    ensures
        replace_each(x + seq![c] + y, p, t) == replace_each(x, p, t) + seq![c] + replace_each(y, p, t),
    decreases x.len(),
{
    let s = x + seq![c] + y;
    let m = p.len() as int;
    if x.len() == 0 {
        assert(s =~= seq![c] + y);
        assert(s.subrange(1, s.len() as int) =~= y);
        if s.len() >= m {
            assert(s.subrange(0, m)[0] == c);
            assert(s.subrange(0, m) != p);
        }
    } else if s.len() < m {
        lemma_replace_each_short(x, p, t);
        lemma_replace_each_short(y, p, t);
    } else if s.subrange(0, m) == p {
        if x.len() < m {
            assert(s.subrange(0, m)[x.len() as int] == c);
            assert(p[x.len() as int] == c);
        }
        assert(x.subrange(0, m) =~= s.subrange(0, m));
        let xr = x.subrange(m, x.len() as int);
        assert(s.subrange(m, s.len() as int) =~= xr + seq![c] + y);
        lemma_replace_each_split(xr, c, y, p, t);
    } else {
        let xr = x.subrange(1, x.len() as int);
        assert(s.subrange(1, s.len() as int) =~= xr + seq![c] + y);
        lemma_replace_each_split(xr, c, y, p, t);
        if x.len() < m {
            lemma_replace_each_short(x, p, t);
            lemma_replace_each_short(xr, p, t);
            assert(seq![x[0]] + xr =~= x);
        } else {
            assert(x.subrange(0, m) =~= s.subrange(0, m));
        }
        assert(s[0] == x[0]);
    }
}

/// A character that is not in `p` cannot be part of an occurrence of it.
pub proof fn lemma_no_occurrence_split(x: Seq<char>, c: char, y: Seq<char>, p: Seq<char>)
    requires
        p.len() > 0,
        !p.contains(c),
        !occurs_in(x, p),
        !occurs_in(y, p),
    ensures
        !occurs_in(x + seq![c] + y, p),
{
    let s = x + seq![c] + y;
    let m = p.len() as int;
    assert forall|i: int| !matches_at(s, p, i) by {
        if matches_at(s, p, i) {
            if i + m <= x.len() {
                assert(x.subrange(i, i + m) =~= s.subrange(i, i + m));
                assert(matches_at(x, p, i));
            } else if i > x.len() {
                let k = i - x.len() - 1;
                assert(y.subrange(k, k + m) =~= s.subrange(i, i + m));
                assert(matches_at(y, p, k));
            } else {
                assert(s.subrange(i, i + m)[x.len() - i] == c);
                assert(p[x.len() - i] == c);
            }
        }
    }
}

/// Where `p` occurs in `s` and no longer after one pass, repeated replacement
/// stops after that pass.
pub proof fn lemma_fixpoint_after_one_pass(s: Seq<char>, p: Seq<char>, t: Seq<char>)
    requires
        occurs_in(s, p),
        !occurs_in(replace_each(s, p, t), p),
    ensures
        replace_terminates(s, p, t),
        replace_fixpoint(s, p, t) == replace_each(s, p, t),
{
    assert(rewrite_n(s, p, t, 0) == s);
    assert(rewrite_n(s, p, t, 1) == replace_each(s, p, t));
    assert(is_first_fixpoint(s, p, t, 1));
    let c = choose|n: nat| is_first_fixpoint(s, p, t, n);
    lemma_first_fixpoint_unique(s, p, t, 1, c);
}

/// Where repeated replacement stops, its text is the one after the first pass
/// count `n` at which `p` no longer occurs: `p` occurs after every earlier count.
pub proof fn law_fixpoint_is_first_stop(s: Seq<char>, p: Seq<char>, t: Seq<char>) -> (n: nat)
    requires
        replace_terminates(s, p, t),
    ensures
        replace_fixpoint(s, p, t) == rewrite_n(s, p, t, n),
        !occurs_in(rewrite_n(s, p, t, n), p),
        forall|j: nat| j < n ==> occurs_in(#[trigger] rewrite_n(s, p, t, j), p),
{
    let m = choose|m: nat| !occurs_in(#[trigger] rewrite_n(s, p, t, m), p);
    lemma_first_fixpoint_below(s, p, t, m);
    let c = choose|k: nat| is_first_fixpoint(s, p, t, k);
    assert(is_first_fixpoint(s, p, t, c));
    c
}

/// Joining: nothing gives the empty text, one part gives itself, and one more
/// part adds the separator and that part at the end.
pub proof fn law_join_parts(parts: Seq<Seq<char>>, x: Seq<char>, sep: Seq<char>)
    ensures
        join(Seq::<Seq<char>>::empty(), sep) == Seq::<char>::empty(),
        join(seq![x], sep) == x,
        parts.len() > 0 ==> join(parts.push(x), sep) == join(parts, sep) + sep + x,
{
    assert(parts.push(x).drop_last() =~= parts);
}

/// How many times `c` occurs in `s`.
pub open spec fn count_char(s: Seq<char>, c: char) -> nat
    decreases s.len(),
{
    if s.len() == 0 {
        0
    } else {
        (if s[0] == c {
            1nat
        } else {
            0nat
        }) + count_char(s.subrange(1, s.len() as int), c)
    }
}

/// Repeated replacement of `p` by `t` stops whatever the text: `p` is not
/// empty, and either `t` is shorter than `p` or some character of `p` is not in `t`.
pub open spec fn surely_terminates(p: Seq<char>, t: Seq<char>) -> bool {
    &&& p.len() > 0
    &&& (t.len() < p.len() || exists|k: int| 0 <= k < p.len() && !t.contains(#[trigger] p[k]))
}

proof fn lemma_count_concat(a: Seq<char>, b: Seq<char>, c: char)
    ensures
        count_char(a + b, c) == count_char(a, c) + count_char(b, c),
    decreases a.len(),
{
    if a.len() > 0 {
        assert((a + b).subrange(1, (a + b).len() as int) =~= a.subrange(1, a.len() as int) + b);
        lemma_count_concat(a.subrange(1, a.len() as int), b, c);
    } else {
        assert(a + b =~= b);
    }
}

proof fn lemma_count_absent(s: Seq<char>, c: char)
    requires
        !s.contains(c),
    ensures
        count_char(s, c) == 0,
    decreases s.len(),
{
    if s.len() > 0 {
        let r = s.subrange(1, s.len() as int);
        assert(!r.contains(c)) by {
            if r.contains(c) {
                let k = choose|k: int| 0 <= k < r.len() && r[k] == c;
                assert(s[k + 1] == c);
            }
        }
        lemma_count_absent(r, c);
    }
}

proof fn lemma_count_present(s: Seq<char>, k: int, c: char)
    requires
        0 <= k < s.len(),
        s[k] == c,
    ensures
        count_char(s, c) >= 1,
    decreases s.len(),
{
    if k > 0 {
        let r = s.subrange(1, s.len() as int);
        assert(r[k - 1] == c);
        lemma_count_present(r, k - 1, c);
    }
}

/// An occurrence of non-empty `p` not at the start of `s` is one in the rest of `s`.
proof fn lemma_occurs_in_rest(s: Seq<char>, p: Seq<char>)
    requires
        p.len() > 0,
        s.len() >= p.len(),
        occurs_in(s, p),
        s.subrange(0, p.len() as int) != p,
    ensures
        occurs_in(s.subrange(1, s.len() as int), p),
{
    let i = choose|i: int| matches_at(s, p, i);
    let r = s.subrange(1, s.len() as int);
    assert(i != 0);
    assert(r.subrange(i - 1, i - 1 + p.len()) =~= s.subrange(i, i + p.len()));
    assert(matches_at(r, p, i - 1));
}

/// One pass never adds a character `c` that `t` lacks, and removes some where `p` occurs.
proof fn lemma_count_after_pass(s: Seq<char>, p: Seq<char>, t: Seq<char>, c: char)
    requires
        p.len() > 0,
        p.contains(c),
        !t.contains(c),
    ensures
        count_char(replace_each(s, p, t), c) <= count_char(s, c),
        occurs_in(s, p) ==> count_char(replace_each(s, p, t), c) < count_char(s, c),
    decreases s.len(),
{
    let m = p.len() as int;
    if s.len() < m {
        if occurs_in(s, p) {
            let i = choose|i: int| matches_at(s, p, i);
        }
    } else if s.subrange(0, m) == p {
        let r = s.subrange(m, s.len() as int);
        lemma_count_after_pass(r, p, t, c);
        assert(replace_each(s, p, t) == t + replace_each(r, p, t));
        lemma_count_concat(t, replace_each(r, p, t), c);
        lemma_count_absent(t, c);
        assert(s =~= p + r);
        lemma_count_concat(p, r, c);
        let k = choose|k: int| 0 <= k < p.len() && p[k] == c;
        lemma_count_present(p, k, c);
    } else {
        let r = s.subrange(1, s.len() as int);
        lemma_count_after_pass(r, p, t, c);
        let head = seq![s[0]];
        lemma_count_concat(head, replace_each(r, p, t), c);
        assert(head.subrange(1, 1) =~= Seq::<char>::empty());
        assert(count_char(Seq::<char>::empty(), c) == 0);
        assert(count_char(head, c) == (if s[0] == c { 1nat } else { 0nat }));
        assert(replace_each(s, p, t) == head + replace_each(r, p, t));
        assert(count_char(s, c) == (if s[0] == c { 1nat } else { 0nat }) + count_char(r, c));
        if occurs_in(s, p) {
            lemma_occurs_in_rest(s, p);
        }
    }
}

/// One pass never lengthens the text when `t` is no longer than `p`, and
/// shortens it where `p` occurs and `t` is shorter.
proof fn lemma_length_after_pass(s: Seq<char>, p: Seq<char>, t: Seq<char>)
    requires
        p.len() > 0,
        t.len() <= p.len(),
    ensures
        replace_each(s, p, t).len() <= s.len(),
        occurs_in(s, p) && t.len() < p.len() ==> replace_each(s, p, t).len() < s.len(),
    decreases s.len(),
{
    let m = p.len() as int;
    if s.len() < m {
        if occurs_in(s, p) {
            let i = choose|i: int| matches_at(s, p, i);
        }
    } else if s.subrange(0, m) == p {
        lemma_length_after_pass(s.subrange(m, s.len() as int), p, t);
    } else {
        lemma_length_after_pass(s.subrange(1, s.len() as int), p, t);
        if occurs_in(s, p) {
            lemma_occurs_in_rest(s, p);
        }
    }
}

/// Passes after the first are passes over the first pass's result.
proof fn lemma_rewrite_shift(s: Seq<char>, p: Seq<char>, t: Seq<char>, n: nat)
    ensures
        rewrite_n(s, p, t, n + 1) == rewrite_n(replace_each(s, p, t), p, t, n),
    decreases n,
{
    let s1 = replace_each(s, p, t);
    if n > 0 {
        lemma_rewrite_shift(s, p, t, (n - 1) as nat);
        assert(rewrite_n(s, p, t, n + 1) == replace_each(rewrite_n(s, p, t, n), p, t));
        assert(rewrite_n(s1, p, t, n) == replace_each(rewrite_n(s1, p, t, (n - 1) as nat), p, t));
    } else {
        assert(rewrite_n(s, p, t, 0) == s);
        assert(rewrite_n(s, p, t, 1) == replace_each(rewrite_n(s, p, t, 0), p, t));
        assert(rewrite_n(s1, p, t, 0) == s1);
    }
}

/// Where `p` occurs in `s`, repeated replacement stops on `s` exactly when it
/// stops on the result of one pass, and then both stop at the same text.
pub proof fn law_fixpoint_after_pass(s: Seq<char>, p: Seq<char>, t: Seq<char>)
    requires
        occurs_in(s, p),
    ensures
        replace_terminates(s, p, t) <==> replace_terminates(replace_each(s, p, t), p, t),
        replace_terminates(s, p, t) ==> replace_fixpoint(s, p, t) == replace_fixpoint(
            replace_each(s, p, t),
            p,
            t,
        ),
{
    let s1 = replace_each(s, p, t);
    if replace_terminates(s, p, t) {
        let n = choose|n: nat| !occurs_in(#[trigger] rewrite_n(s, p, t, n), p);
        assert(n != 0);
        lemma_rewrite_shift(s, p, t, (n - 1) as nat);
        assert(!occurs_in(rewrite_n(s1, p, t, (n - 1) as nat), p));
        lemma_first_fixpoint_below(s, p, t, n);
        let k = choose|k: nat| is_first_fixpoint(s, p, t, k);
        assert(is_first_fixpoint(s, p, t, k));
        assert(k != 0);
        let k1 = (k - 1) as nat;
        lemma_rewrite_shift(s, p, t, k1);
        assert forall|j: nat| j < k1 implies occurs_in(#[trigger] rewrite_n(s1, p, t, j), p) by {
            lemma_rewrite_shift(s, p, t, j);
            assert(occurs_in(rewrite_n(s, p, t, j + 1), p));
        }
        assert(is_first_fixpoint(s1, p, t, k1));
        let c1 = choose|j: nat| is_first_fixpoint(s1, p, t, j);
        lemma_first_fixpoint_unique(s1, p, t, k1, c1);
    }
    if replace_terminates(s1, p, t) {
        let n1 = choose|n: nat| !occurs_in(#[trigger] rewrite_n(s1, p, t, n), p);
        lemma_rewrite_shift(s, p, t, n1);
        assert(!occurs_in(rewrite_n(s, p, t, n1 + 1), p));
    }
}

proof fn lemma_terminates_by_count(s: Seq<char>, p: Seq<char>, t: Seq<char>, c: char)
    requires
        p.len() > 0,
        p.contains(c),
        !t.contains(c),
    ensures
        replace_terminates(s, p, t),
    decreases count_char(s, c),
{
    if !occurs_in(s, p) {
        assert(!occurs_in(rewrite_n(s, p, t, 0), p));
    } else {
        lemma_count_after_pass(s, p, t, c);
        let s1 = replace_each(s, p, t);
        lemma_terminates_by_count(s1, p, t, c);
        law_fixpoint_after_pass(s, p, t);
    }
}

proof fn lemma_terminates_by_length(s: Seq<char>, p: Seq<char>, t: Seq<char>)
    requires
        p.len() > 0,
        t.len() < p.len(),
    ensures
        replace_terminates(s, p, t),
    decreases s.len(),
{
    if !occurs_in(s, p) {
        assert(!occurs_in(rewrite_n(s, p, t, 0), p));
    } else {
        lemma_length_after_pass(s, p, t);
        lemma_terminates_by_length(replace_each(s, p, t), p, t);
        law_fixpoint_after_pass(s, p, t);
    }
}

/// Repeated replacement stops, whatever the text, where `p` is not empty and
/// `t` is shorter than `p` or lacks some character of `p`.
pub proof fn law_surely_terminates(s: Seq<char>, p: Seq<char>, t: Seq<char>)
    requires
        surely_terminates(p, t),
    ensures
        replace_terminates(s, p, t),
{
    if t.len() < p.len() {
        lemma_terminates_by_length(s, p, t);
    } else {
        let k = choose|k: int| 0 <= k < p.len() && !t.contains(#[trigger] p[k]);
        lemma_terminates_by_count(s, p, t, p[k]);
    }
}

/// Repeated replacement of the empty pattern never stops.
pub proof fn law_empty_pattern_never_stops(s: Seq<char>, p: Seq<char>, t: Seq<char>)
    requires
        p.len() == 0,
    ensures
        !replace_terminates(s, p, t),
{
    assert forall|n: nat| occurs_in(#[trigger] rewrite_n(s, p, t, n), p) by {
        lemma_empty_occurs(rewrite_n(s, p, t, n), p);
    }
}

proof fn lemma_occurs_transitive(x: Seq<char>, t: Seq<char>, p: Seq<char>)
    requires
        occurs_in(x, t),
        occurs_in(t, p),
    ensures
        occurs_in(x, p),
{
    let i = choose|i: int| matches_at(x, t, i);
    let j = choose|j: int| matches_at(t, p, j);
    assert(x.subrange(i + j, i + j + p.len()) =~= t.subrange(j, j + p.len()));
    assert(matches_at(x, p, i + j));
}

/// Where non-empty `p` occurs in `s`, one pass puts `t` into the text.
proof fn lemma_pass_contains_replacement(s: Seq<char>, p: Seq<char>, t: Seq<char>)
    requires
        p.len() > 0,
        occurs_in(s, p),
    ensures
        occurs_in(replace_each(s, p, t), t),
    decreases s.len(),
{
    let m = p.len() as int;
    if s.len() < m {
        let i = choose|i: int| matches_at(s, p, i);
    } else if s.subrange(0, m) == p {
        let r = replace_each(s.subrange(m, s.len() as int), p, t);
        assert((t + r).subrange(0, t.len() as int) =~= t);
        assert(matches_at(t + r, t, 0));
    } else {
        let rest = s.subrange(1, s.len() as int);
        lemma_occurs_in_rest(s, p);
        lemma_pass_contains_replacement(rest, p, t);
        let r = replace_each(rest, p, t);
        let i = choose|i: int| matches_at(r, t, i);
        assert((seq![s[0]] + r).subrange(i + 1, i + 1 + t.len()) =~= r.subrange(i, i + t.len()));
        assert(matches_at(seq![s[0]] + r, t, i + 1));
    }
}

/// Repeated replacement never stops where `p` occurs in `s` and `t` holds `p`
/// again: every pass puts it back.
pub proof fn law_self_reproducing_never_stops(s: Seq<char>, p: Seq<char>, t: Seq<char>)
    requires
        occurs_in(s, p),
        occurs_in(t, p),
    ensures
        !replace_terminates(s, p, t),
{
    if p.len() == 0 {
        law_empty_pattern_never_stops(s, p, t);
    } else {
        assert forall|n: nat| occurs_in(#[trigger] rewrite_n(s, p, t, n), p) by {
            lemma_rewrite_always_occurs(s, p, t, n);
        }
    }
}

proof fn lemma_rewrite_always_occurs(s: Seq<char>, p: Seq<char>, t: Seq<char>, n: nat)
    requires
        p.len() > 0,
        occurs_in(s, p),
        occurs_in(t, p),
    ensures
        occurs_in(rewrite_n(s, p, t, n), p),
    decreases n,
{
    if n > 0 {
        let prev = rewrite_n(s, p, t, (n - 1) as nat);
        lemma_rewrite_always_occurs(s, p, t, (n - 1) as nat);
        lemma_pass_contains_replacement(prev, p, t);
        lemma_occurs_transitive(replace_each(prev, p, t), t, p);
    }
}

/// The characters of `s`, in order.
pub fn chars_of(s: &str) -> (v: Vec<char>)
    ensures
        v@ == s@,
{
    let n = s.unicode_len();
    let mut v: Vec<char> = Vec::new();
    let mut i: usize = 0;
    while i < n
        invariant
            n == s@.len(),
            i <= n,
            v@ == s@.subrange(0, i as int),
        decreases n - i,
    {
        let c = s.get_char(i);
        v.push(c);
        i = i + 1;
        assert(v@ =~= s@.subrange(0, i as int));
    }
    assert(v@ =~= s@);
    v
}

/// Whether `p` occurs in `s` at index `i`.
fn matches_at_exec(s: &Vec<char>, p: &Vec<char>, i: usize) -> (b: bool)
    requires
        i <= s.len(),
    ensures
        b == matches_at(s@, p@, i as int),
{
    let m = p.len();
    if m > s.len() - i {
        return false;
    }
    let mut j: usize = 0;
    while j < m
        invariant
            m == p@.len(),
            i + m <= s.len(),
            j <= m,
            forall|k: int| 0 <= k < j ==> s@[i + k] == p@[k],
        decreases m - j,
    {
        if s[i + j] != p[j] {
            assert(s@.subrange(i as int, i + m)[j as int] != p@[j as int]);
            return false;
        }
        j = j + 1;
    }
    assert(s@.subrange(i as int, i + m) =~= p@);
    true
}

/// Whether `p` occurs in `s`.
fn occurs_chars(s: &Vec<char>, p: &Vec<char>) -> (b: bool)
    ensures
        b == occurs_in(s@, p@),
{
    let n = s.len();
    let mut i: usize = 0;
    while i < n
        invariant
            n == s@.len(),
            i <= n,
            forall|k: int| 0 <= k < i ==> !matches_at(s@, p@, k),
        decreases n - i,
    {
        if matches_at_exec(s, p, i) {
            return true;
        }
        i = i + 1;
    }
    let last = matches_at_exec(s, p, n);
    assert forall|k: int| k != n implies !matches_at(s@, p@, k) by {
        if 0 <= k < n {
        }
    }
    last
}

/// Whether `pattern` occurs in `s`.
pub fn contains(s: &str, pattern: &str) -> (b: bool)
    ensures
        b == occurs_in(s@, pattern@),
{
    let sv = chars_of(s);
    let pv = chars_of(pattern);
    occurs_chars(&sv, &pv)
}

/// Inserts `to` before each character of `s` and at its end: the replacement of the empty pattern.
fn insert_everywhere(s: &str, to: &str) -> (res: String)
    ensures
        res@ == replace_each(s@, Seq::<char>::empty(), to@),
{
    let n = s.unicode_len();
    let ghost e = Seq::<char>::empty();
    let mut res = String::new();
    let mut i: usize = 0;
    assert(s@.subrange(0, n as int) =~= s@);
    while i < n
        invariant
            n == s@.len(),
            i <= n,
            e.len() == 0,
            replace_each(s@, e, to@) == res@ + replace_each(s@.subrange(i as int, n as int), e, to@),
        decreases n - i,
    {
        let ghost rest = s@.subrange(i as int, n as int);
        assert(rest.subrange(1, rest.len() as int) =~= s@.subrange(i + 1, n as int));
        assert(seq![rest[0]] =~= s@.subrange(i as int, i + 1));
        let c = s.substring_char(i, i + 1);
        let ghost before = res@;
        res.append(to);
        res.append(c);
        assert(replace_each(rest, e, to@) == to@ + seq![rest[0]] + replace_each(
            rest.subrange(1, rest.len() as int),
            e,
            to@,
        ));
        assert(res@ =~= before + (to@ + seq![rest[0]]));
        i = i + 1;
    }
    res.append(to);
    assert(s@.subrange(n as int, n as int) =~= e);
    res
}

/// Replaces every leftmost, non-overlapping occurrence of `pattern` in `s` by
/// `to`, in one pass (an empty `pattern` occurs before each character and at the end).
pub fn replace_all(s: &str, pattern: &str, to: &str) -> (res: String)
    ensures
        res@ == replace_each(s@, pattern@, to@),
{
    if pattern.unicode_len() == 0 {
        assert(pattern@ =~= Seq::<char>::empty());
        return insert_everywhere(s, to);
    }
    let sv = chars_of(s);
    let pv = chars_of(pattern);
    let n = sv.len();
    let m = pv.len();
    let ghost ss = s@;
    let ghost p = pattern@;
    let ghost t = to@;
    let mut res = String::new();
    let mut seg: usize = 0;
    let mut i: usize = 0;
    assert(ss.subrange(0, n as int) =~= ss);
    while i < n
        invariant
            n == ss.len(),
            m == p.len(),
            m > 0,
            sv@ == ss,
            pv@ == p,
            ss == s@,
            p == pattern@,
            t == to@,
            seg <= i <= n,
            replace_each(ss, p, t) == res@ + ss.subrange(seg as int, i as int) + replace_each(
                ss.subrange(i as int, n as int),
                p,
                t,
            ),
        decreases n - i,
    {
        let ghost rest = ss.subrange(i as int, n as int);
        if matches_at_exec(&sv, &pv, i) {
            assert(rest.subrange(0, m as int) =~= ss.subrange(i as int, i + m));
            assert(rest.subrange(m as int, rest.len() as int) =~= ss.subrange(i + m, n as int));
            let piece = s.substring_char(seg, i);
            res.append(piece);
            res.append(to);
            i = i + m;
            seg = i;
            assert(ss.subrange(seg as int, i as int) =~= Seq::<char>::empty());
            assert(replace_each(ss, p, t) == res@ + ss.subrange(seg as int, i as int)
                + replace_each(ss.subrange(i as int, n as int), p, t));
        } else {
            if m <= n - i {
                assert(rest.subrange(0, m as int) =~= ss.subrange(i as int, i + m));
            }
            assert(rest.subrange(1, rest.len() as int) =~= ss.subrange(i + 1, n as int));
            if m > n - i {
                proof {
                    lemma_replace_each_short(ss.subrange(i + 1, n as int), p, t);
                }
                assert(seq![rest[0]] + rest.subrange(1, rest.len() as int) =~= rest);
            }
            assert(replace_each(rest, p, t) == seq![ss[i as int]] + replace_each(
                ss.subrange(i + 1, n as int),
                p,
                t,
            ));
            assert(ss.subrange(seg as int, i as int) + seq![ss[i as int]] =~= ss.subrange(
                seg as int,
                i + 1,
            ));
            i = i + 1;
        }
    }
    let piece = s.substring_char(seg, n);
    res.append(piece);
    assert(ss.subrange(n as int, n as int) =~= Seq::<char>::empty());
    res
}

/// Replaces `pattern` by `to` in `s`, pass after pass, until `pattern` no longer
/// occurs; returns that text. Repetition stops only if some pass leaves no
/// occurrence (never for an empty `pattern`), hence the `requires`.
pub fn replace_recursively(s: &str, pattern: &str, to: &str) -> (res: String)
    requires
        replace_terminates(s@, pattern@, to@),
    ensures
        res@ == replace_fixpoint(s@, pattern@, to@),
        !occurs_in(res@, pattern@),
{
    let ghost p = pattern@;
    let ghost t = to@;
    let ghost bound = choose|n: nat| !occurs_in(#[trigger] rewrite_n(s@, p, t, n), p);
    proof {
        if p.len() == 0 {
            lemma_empty_occurs(rewrite_n(s@, p, t, bound), p);
        }
    }
    let mut cur = String::from_str(s);
    let ghost mut k: nat = 0;
    while contains(cur.as_str(), pattern)
        invariant
            p == pattern@,
            t == to@,
            p.len() > 0,
            cur@ == rewrite_n(s@, p, t, k),
            forall|j: nat| j < k ==> occurs_in(#[trigger] rewrite_n(s@, p, t, j), p),
            k <= bound,
            !occurs_in(rewrite_n(s@, p, t, bound), p),
        decreases bound - k,
    {
        cur = replace_all(cur.as_str(), pattern, to);
        proof {
            k = k + 1;
        }
    }
    proof {
        assert(is_first_fixpoint(s@, p, t, k));
        let c = choose|n: nat| is_first_fixpoint(s@, p, t, n);
        lemma_first_fixpoint_unique(s@, p, t, k, c);
    }
    cur
}

/// Whether `s` ends with `suffix`.
pub fn ends_with(s: &str, suffix: &str) -> (b: bool)
    ensures
        b == has_suffix(s@, suffix@),
{
    let sv = chars_of(s);
    let xv = chars_of(suffix);
    if xv.len() > sv.len() {
        return false;
    }
    let start = sv.len() - xv.len();
    let r = matches_at_exec(&sv, &xv, start);
    assert(start + xv@.len() == sv@.len());
    r
}

/// The strings of `parts` in order, with `sep` between each two neighbours.
pub fn join_strs(parts: &Vec<&str>, sep: &str) -> (res: String)
    ensures
        res@ == join(parts@.map_values(|x: &str| x@), sep@),
{
    let ghost views = parts@.map_values(|x: &str| x@);
    let mut res = String::new();
    let mut i: usize = 0;
    while i < parts.len()
        invariant
            views == parts@.map_values(|x: &str| x@),
            i <= parts.len(),
            res@ == join(views.take(i as int), sep@),
        decreases parts.len() - i,
    {
        if i != 0 {
            res.append(sep);
        }
        res.append(parts[i]);
        assert(views.take(i + 1).drop_last() =~= views.take(i as int));
        i = i + 1;
    }
    assert(views.take(parts.len() as int) =~= views);
    res
}

/// Whether `c` is among the characters `v`.
fn has_char(v: &Vec<char>, c: char) -> (b: bool)
    ensures
        b == v@.contains(c),
{
    let mut i: usize = 0;
    while i < v.len()
        invariant
            i <= v.len(),
            forall|j: int| 0 <= j < i ==> v@[j] != c,
        decreases v.len() - i,
    {
        if v[i] == c {
            return true;
        }
        i = i + 1;
    }
    false
}

/// Whether repeated replacement of `pattern` by `to` surely stops, whatever the
/// text (see [`surely_terminates`] and [`law_surely_terminates`]).
pub fn replacement_surely_stops(pattern: &str, to: &str) -> (b: bool)
    ensures
        b == surely_terminates(pattern@, to@),
{
    let pv = chars_of(pattern);
    let tv = chars_of(to);
    if pv.len() == 0 {
        return false;
    }
    if tv.len() < pv.len() {
        return true;
    }
    let mut k: usize = 0;
    while k < pv.len()
        invariant
            pv@ == pattern@,
            tv@ == to@,
            k <= pv.len(),
            forall|j: int| 0 <= j < k ==> to@.contains(#[trigger] pattern@[j]),
        decreases pv.len() - k,
    {
        if !has_char(&tv, pv[k]) {
            return true;
        }
        k = k + 1;
    }
    false
}

} // verus!
