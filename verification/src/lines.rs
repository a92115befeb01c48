//! The line reassembler's mathematical model: splitting a character stream
//! into its complete, newline-terminated lines and the unterminated rest.

use vstd::prelude::*;

verus! {

/// Index of the first `'\n'` at or after `i`, or `s.len()` when there is
/// none.
pub open spec fn find_nl(s: Seq<char>, i: int) -> int
    decreases s.len() - i,
{
    if i < 0 || i >= s.len() {
        s.len() as int
    } else if s[i] == '\n' {
        i
    } else {
        find_nl(s, i + 1)
    }
}

/// The complete lines of `s`, in order, without their terminators.
pub open spec fn complete_lines(s: Seq<char>) -> Seq<Seq<char>>
    decreases s.len(),
{
    let j = find_nl(s, 0);
    if !(0 <= j < s.len()) {
        Seq::empty()
    } else {
        seq![s.subrange(0, j)] + complete_lines(s.subrange(j + 1, s.len() as int))
    }
}

/// The trailing unterminated fragment of `s`: everything after its last
/// `'\n'`, or all of `s` when it holds none.
pub open spec fn line_rest(s: Seq<char>) -> Seq<char>
    decreases s.len(),
{
    let j = find_nl(s, 0);
    if !(0 <= j < s.len()) {
        s
    } else {
        line_rest(s.subrange(j + 1, s.len() as int))
    }
}

/// `find_nl` returns the least newline position in `[i, s.len())`, or
/// `s.len()` when that range holds no newline.
pub proof fn lemma_find_nl(s: Seq<char>, i: int)
    requires
        0 <= i <= s.len(),
    ensures
        i <= find_nl(s, i) <= s.len(),
        find_nl(s, i) < s.len() ==> s[find_nl(s, i)] == '\n',
        forall|k: int| i <= k < find_nl(s, i) ==> s[k] != '\n',
    decreases s.len() - i,
{
    if i < s.len() && s[i] != '\n' {
        lemma_find_nl(s, i + 1);
    }
}

/// A stream whose first newline stands at `j` splits into the line before
/// `j` and whatever the rest splits into.
pub proof fn lemma_first_nl_at(s: Seq<char>, j: int)
    requires
        0 <= j < s.len(),
        s[j] == '\n',
        forall|k: int| 0 <= k < j ==> s[k] != '\n',
    ensures
        find_nl(s, 0) == j,
{
    lemma_find_nl_prefix(s, 0, j);
}

proof fn lemma_find_nl_prefix(s: Seq<char>, i: int, j: int)
    requires
        0 <= i <= j < s.len(),
        s[j] == '\n',
        forall|k: int| i <= k < j ==> s[k] != '\n',
    ensures
        find_nl(s, i) == j,
    decreases j - i,
{
    if i < j {
        lemma_find_nl_prefix(s, i + 1, j);
    }
}

/// A stream without a newline is all rest and no line.
pub proof fn lemma_no_nl(s: Seq<char>)
    requires
        forall|k: int| 0 <= k < s.len() ==> s[k] != '\n',
    ensures
        complete_lines(s) == Seq::<Seq<char>>::empty(),
        line_rest(s) == s,
{
    lemma_find_nl(s, 0);
    if 0 <= find_nl(s, 0) < s.len() {
        assert(s[find_nl(s, 0)] == '\n');
    }
}

/// The leftover fragment never holds a newline.
pub proof fn lemma_line_rest_no_nl(s: Seq<char>)
    ensures
        forall|k: int| 0 <= k < line_rest(s).len() ==> line_rest(s)[k] != '\n',
    decreases s.len(),
{
    let j = find_nl(s, 0);
    lemma_find_nl(s, 0);
    if 0 <= j < s.len() {
        lemma_line_rest_no_nl(s.subrange(j + 1, s.len() as int));
        assert(line_rest(s) == line_rest(s.subrange(j + 1, s.len() as int)));
    } else {
        assert(line_rest(s) == s);
        assert(forall|k: int| 0 <= k < s.len() ==> s[k] != '\n');
    }
}

/// Scanning for a newline commutes with dropping a prefix.
pub proof fn lemma_find_nl_shift(s: Seq<char>, a: int)
    requires
        0 <= a <= s.len(),
    ensures
        find_nl(s.subrange(a, s.len() as int), 0) == find_nl(s, a) - a,
{
    let t = s.subrange(a, s.len() as int);
    let j = find_nl(s, a);
    lemma_find_nl(s, a);
    if j < s.len() {
        assert(t[j - a] == '\n');
        assert(forall|k: int| 0 <= k < j - a ==> t[k] != '\n');
        lemma_first_nl_at(t, j - a);
    } else {
        lemma_find_nl(t, 0);
        if find_nl(t, 0) < t.len() {
            assert(t[find_nl(t, 0)] == '\n');
            assert(s[a + find_nl(t, 0)] == '\n');
        }
    }
}

/// Splitting is insensitive to where the stream was cut: appending `b`
/// after `a` yields the lines of `a` followed by the lines that `b`
/// completes out of `a`'s leftover fragment, and the same leftover.
pub proof fn lemma_lines_append(a: Seq<char>, b: Seq<char>)
    ensures
        complete_lines(a + b) == complete_lines(a) + complete_lines(line_rest(a) + b),
        line_rest(a + b) == line_rest(line_rest(a) + b),
    decreases a.len(),
{
    let s = a + b;
    let j = find_nl(a, 0);
    lemma_find_nl(a, 0);
    if !(0 <= j < a.len()) {
        // no newline inside `a`
        lemma_no_nl(a);
        assert(line_rest(a) + b =~= a + b);
        assert(complete_lines(a + b) =~= Seq::<Seq<char>>::empty() + complete_lines(
            line_rest(a) + b,
        ));
    } else {
        // first newline of `a + b` is the first newline of `a`
        assert(forall|k: int| 0 <= k < j ==> s[k] != '\n');
        lemma_first_nl_at(s, j);
        let a2 = a.subrange(j + 1, a.len() as int);
        lemma_lines_append(a2, b);
        assert(s.subrange(j + 1, s.len() as int) =~= a2 + b);
        assert(s.subrange(0, j) =~= a.subrange(0, j));
        assert(complete_lines(a + b) =~= seq![a.subrange(0, j)] + complete_lines(a2 + b));
        assert(complete_lines(a) + complete_lines(line_rest(a) + b) =~= seq![a.subrange(0, j)]
            + (complete_lines(a2) + complete_lines(line_rest(a2) + b)));
        assert(seq![a.subrange(0, j)] + (complete_lines(a2) + complete_lines(line_rest(a2) + b))
            =~= seq![a.subrange(0, j)] + complete_lines(a2 + b));
    }
}

} // verus!
