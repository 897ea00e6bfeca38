//! The lines of a text that hold a mark.
use crate::markdown::{escaped, sendable};
use crate::text::{first_of, lemma_first_of, replaced, stands_at};
use vstd::prelude::*;

verus! {

/// Whether `c` does not occur in `s`.
pub open spec fn free_of(s: Seq<char>, c: char) -> bool {
    forall|i: int| 0 <= i < s.len() ==> #[trigger] s[i] != c
}

/// Where the first line of `s` ends, its line break counted in.
pub open spec fn line_end(s: Seq<char>) -> int {
    let n = first_of(s, '\n');
    if n < s.len() {
        n + 1
    } else {
        s.len() as int
    }
}

/// `s` without the lines that hold `mark`.
pub open spec fn without_lines(s: Seq<char>, mark: char) -> Seq<char>
    decreases s.len(),
{
    if s.len() == 0 || line_end(s) <= 0 {
        s
    } else {
        let first = s.take(line_end(s));
        (if free_of(first, mark) {
            first
        } else {
            Seq::empty()
        }) + without_lines(s.skip(line_end(s)), mark)
    }
}

/// How many lines of `s` hold `mark`.
pub open spec fn marked_lines(s: Seq<char>, mark: char) -> nat
    decreases s.len(),
{
    if s.len() == 0 || line_end(s) <= 0 {
        0
    } else {
        let first = s.take(line_end(s));
        (if free_of(first, mark) {
            0nat
        } else {
            1nat
        }) + marked_lines(s.skip(line_end(s)), mark)
    }
}

proof fn lemma_found(s: Seq<char>, c: char)
    ensures
        0 <= first_of(s, c) <= s.len(),
        forall|k: int| 0 <= k < first_of(s, c) ==> s[k] != c,
        first_of(s, c) < s.len() ==> s[first_of(s, c)] == c,
    decreases s.len(),
{
    if s.len() > 0 && s[0] != c {
        let rest = s.skip(1);
        lemma_found(rest, c);
        assert forall|k: int| 0 <= k < first_of(s, c) implies s[k] != c by {
            if k > 0 {
                assert(rest[k - 1] == s[k]);
            }
        }
    }
}

proof fn lemma_line_end(s: Seq<char>)
    requires
        s.len() > 0,
    ensures
        0 < line_end(s) <= s.len(),
{
    lemma_found(s, '\n');
}

/// A text without the mark stays as it is.
pub proof fn lemma_unmarked(s: Seq<char>, mark: char)
    requires
        free_of(s, mark),
    ensures
        without_lines(s, mark) == s,
        marked_lines(s, mark) == 0,
    decreases s.len(),
{
    if s.len() > 0 {
        lemma_line_end(s);
        let n = line_end(s);
        lemma_unmarked(s.skip(n), mark);
        assert(s == s.take(n) + s.skip(n));
    }
}

/// A single line with the mark is left out.
proof fn lemma_marked_line(x: Seq<char>, mark: char)
    requires
        free_of(x, '\n'),
        !free_of(x, mark),
    ensures
        without_lines(x.push('\n'), mark) == Seq::<char>::empty(),
        marked_lines(x.push('\n'), mark) == 1,
{
    reveal_with_fuel(without_lines, 2);
    reveal_with_fuel(marked_lines, 2);
    let s = x.push('\n');
    lemma_first_of(s, '\n', x.len() as int);
    assert(s.take(line_end(s)) == s);
    let i = choose|i: int| 0 <= i < x.len() && #[trigger] x[i] == mark;
    assert(s[i] == mark);
    assert(s.skip(line_end(s)).len() == 0);
}

/// What follows a line break is looked at on its own.
proof fn lemma_lines_apart(a: Seq<char>, b: Seq<char>, mark: char)
    ensures
        without_lines(a.push('\n') + b, mark) == without_lines(a.push('\n'), mark)
            + without_lines(b, mark),
        marked_lines(a.push('\n') + b, mark) == marked_lines(a.push('\n'), mark) + marked_lines(
            b,
            mark,
        ),
    decreases a.len(),
{
    let front = a.push('\n');
    let s = front + b;
    lemma_found(front, '\n');
    let n = first_of(front, '\n');
    assert(front[a.len() as int] == '\n');
    assert(n <= a.len());
    assert forall|k: int| 0 <= k < n implies s[k] != '\n' by {
        assert(s[k] == front[k]);
    }
    assert(s[n] == front[n]);
    lemma_first_of(s, '\n', n);
    assert(s.take(n + 1) == front.take(n + 1));
    if n == a.len() {
        assert(s.skip(n + 1) == b);
        assert(front.skip(n + 1).len() == 0);
        assert(without_lines(front.skip(n + 1), mark) == Seq::<char>::empty());
        assert(marked_lines(front.skip(n + 1), mark) == 0);
        assert(front.take(n + 1) + Seq::<char>::empty() == front.take(n + 1));
    } else {
        let rest = a.skip(n + 1);
        lemma_lines_apart(rest, b, mark);
        assert(front.skip(n + 1) == rest.push('\n'));
        assert(s.skip(n + 1) == rest.push('\n') + b);
        assert(without_lines(s, mark) == without_lines(front, mark) + without_lines(b, mark));
    }
}

// ---------------------------------------------------------------------------------------------
// Lines that are sent
// ---------------------------------------------------------------------------------------------

pub proof fn lemma_escaped_apart(a: Seq<char>, b: Seq<char>)
    ensures
        escaped(a + b) == escaped(a) + escaped(b),
    decreases b.len(),
{
    if b.len() == 0 {
        assert(a + b == a);
    } else {
        lemma_escaped_apart(a, b.drop_last());
        assert((a + b).drop_last() == a + b.drop_last());
        assert((a + b).last() == b.last());
    }
}

pub proof fn lemma_replaced_apart(a: Seq<char>, b: Seq<char>, pat: Seq<char>, rep: Seq<char>)
    requires
        pat.len() > 0,
        free_of(pat, '\n'),
    ensures
        replaced(a.push('\n') + b, pat, rep) == replaced(a, pat, rep).push('\n') + replaced(
            b,
            pat,
            rep,
        ),
    decreases a.len(),
{
    let s = a.push('\n') + b;
    let n = pat.len() as int;
    assert(s[a.len() as int] == '\n');
    if stands_at(s, 0, pat) {
        if a.len() < n {
            assert(s.subrange(0, n)[a.len() as int] == '\n');
            assert(pat[a.len() as int] == '\n');
        }
        assert(a.subrange(0, n) == s.subrange(0, n));
        assert(stands_at(a, 0, pat));
        assert(s.skip(n) == a.skip(n).push('\n') + b);
        lemma_replaced_apart(a.skip(n), b, pat, rep);
        assert(replaced(s, pat, rep) == replaced(a, pat, rep).push('\n') + replaced(b, pat, rep));
    } else if a.len() == 0 {
        assert(s.skip(1) == b);
        assert(replaced(a, pat, rep) == a);
        assert(replaced(s, pat, rep) == a.push('\n') + replaced(b, pat, rep));
    } else {
        if stands_at(a, 0, pat) {
            assert(a.subrange(0, n) == s.subrange(0, n));
        }
        assert(s.skip(1) == a.skip(1).push('\n') + b);
        lemma_replaced_apart(a.skip(1), b, pat, rep);
        assert(replaced(s, pat, rep) == replaced(a, pat, rep).push('\n') + replaced(b, pat, rep));
    }
}

/// Line breaks are sent as they are, and what stands before and after one does not meet.
pub proof fn lemma_sendable_apart(a: Seq<char>, b: Seq<char>)
    ensures
        sendable(a.push('\n') + b) == sendable(a).push('\n') + sendable(b),
{
    reveal_strlit("&amp;");
    reveal_strlit("&nbsp;");
    lemma_escaped_apart(a.push('\n'), b);
    assert(a.push('\n').drop_last() == a);
    assert(escaped(a.push('\n')) == escaped(a).push('\n'));
    lemma_replaced_apart(escaped(a), escaped(b), "&amp;"@, "&"@);
    lemma_replaced_apart(
        replaced(escaped(a), "&amp;"@, "&"@),
        replaced(escaped(b), "&amp;"@, "&"@),
        "&nbsp;"@,
        " "@,
    );
}

proof fn lemma_escaped_free(s: Seq<char>, c: char)
    requires
        c != '\\',
    ensures
        free_of(escaped(s), c) == free_of(s, c),
    decreases s.len(),
{
    if s.len() > 0 {
        let before = s.drop_last();
        lemma_escaped_free(before, c);
        let e = escaped(before);
        let all = escaped(s);
        assert(free_of(s, c) == (free_of(before, c) && s.last() != c)) by {
            if free_of(s, c) {
                assert forall|i: int| 0 <= i < before.len() implies #[trigger] before[i] != c by {
                    assert(before[i] == s[i]);
                }
                assert(s[s.len() - 1] != c);
            }
            if free_of(before, c) && s.last() != c {
                assert forall|i: int| 0 <= i < s.len() implies #[trigger] s[i] != c by {
                    if i < s.len() - 1 {
                        assert(before[i] == s[i]);
                    }
                }
            }
        }
        assert(free_of(all, c) == (free_of(e, c) && s.last() != c)) by {
            if free_of(all, c) {
                assert forall|i: int| 0 <= i < e.len() implies #[trigger] e[i] != c by {
                    assert(all[i] == e[i]);
                }
                assert(all[all.len() - 1] == s.last());
            }
        }
    }
}

proof fn lemma_free_parts(a: Seq<char>, b: Seq<char>, c: char)
    ensures
        free_of(a + b, c) == (free_of(a, c) && free_of(b, c)),
{
    if free_of(a + b, c) {
        assert forall|i: int| 0 <= i < a.len() implies #[trigger] a[i] != c by {
            assert((a + b)[i] == a[i]);
        }
        assert forall|i: int| 0 <= i < b.len() implies #[trigger] b[i] != c by {
            assert((a + b)[a.len() + i] == b[i]);
        }
    }
}

proof fn lemma_replaced_free(s: Seq<char>, pat: Seq<char>, rep: Seq<char>, c: char)
    requires
        free_of(pat, c),
        free_of(rep, c),
    ensures
        free_of(replaced(s, pat, rep), c) == free_of(s, c),
    decreases s.len(),
{
    if s.len() > 0 && pat.len() > 0 {
        if stands_at(s, 0, pat) {
            let n = pat.len() as int;
            lemma_replaced_free(s.skip(n), pat, rep, c);
            assert(s == pat + s.skip(n));
            lemma_free_parts(pat, s.skip(n), c);
            lemma_free_parts(rep, replaced(s.skip(n), pat, rep), c);
        } else {
            lemma_replaced_free(s.skip(1), pat, rep, c);
            assert(s == seq![s[0]] + s.skip(1));
            lemma_free_parts(seq![s[0]], s.skip(1), c);
            lemma_free_parts(seq![s[0]], replaced(s.skip(1), pat, rep), c);
        }
    }
}

/// A character that takes no part in the escaping is sent if and only if it is in the text.
proof fn lemma_sendable_free(s: Seq<char>, c: char)
    requires
        c == '\n' || c == 'ⓘ',
    ensures
        free_of(sendable(s), c) == free_of(s, c),
{
    reveal_strlit("&amp;");
    reveal_strlit("&");
    reveal_strlit("&nbsp;");
    reveal_strlit(" ");
    lemma_escaped_free(s, c);
    lemma_replaced_free(escaped(s), "&amp;"@, "&"@, c);
    lemma_replaced_free(replaced(escaped(s), "&amp;"@, "&"@), "&nbsp;"@, " "@, c);
}

// ---------------------------------------------------------------------------------------------
// Texts that differ by marked lines
// ---------------------------------------------------------------------------------------------

/// Whether `s` is made of whole lines.
pub open spec fn whole_lines(s: Seq<char>) -> bool {
    s.len() == 0 || s.last() == '\n'
}

/// Whether what is sent of `long` is what is sent of `short`, where no character is the mark, and `n`
/// lines with the mark in between.
pub open spec fn adds_lines(short: Seq<char>, long: Seq<char>, n: nat) -> bool {
    &&& free_of(sendable(short), 'ⓘ')
    &&& without_lines(sendable(long), 'ⓘ') == sendable(short)
    &&& marked_lines(sendable(long), 'ⓘ') == n
}

/// A text without the mark adds nothing to itself.
pub proof fn lemma_adds_nothing(s: Seq<char>)
    requires
        free_of(s, 'ⓘ'),
    ensures
        adds_lines(s, s, 0),
{
    lemma_sendable_free(s, 'ⓘ');
    lemma_unmarked(sendable(s), 'ⓘ');
}

/// A line with the mark adds one line to nothing.
pub proof fn lemma_adds_one(x: Seq<char>)
    requires
        free_of(x, '\n'),
        !free_of(x, 'ⓘ'),
    ensures
        adds_lines(Seq::empty(), x.push('\n'), 1),
{
    let nothing = Seq::<char>::empty();
    assert(escaped(nothing) == nothing);
    assert(sendable(nothing) == nothing);
    lemma_sendable_apart(x, nothing);
    assert(x.push('\n') + nothing == x.push('\n'));
    assert(sendable(x).push('\n') + nothing == sendable(x).push('\n'));
    lemma_sendable_free(x, '\n');
    lemma_sendable_free(x, 'ⓘ');
    lemma_marked_line(sendable(x), 'ⓘ');
}

/// Where whole lines are followed by something else, the lines that are added add up.
pub proof fn lemma_adds_both(
    short: Seq<char>,
    long: Seq<char>,
    n: nat,
    short_after: Seq<char>,
    long_after: Seq<char>,
    n_after: nat,
)
    requires
        whole_lines(short),
        whole_lines(long),
        adds_lines(short, long, n),
        adds_lines(short_after, long_after, n_after),
    ensures
        adds_lines(short + short_after, long + long_after, n + n_after),
{
    lemma_sent_apart(short, short_after);
    lemma_sent_apart(long, long_after);
    lemma_free_parts(sendable(short), sendable(short_after), 'ⓘ');
    if long.len() > 0 {
        let a = long.drop_last();
        assert(long == a.push('\n'));
        let nothing = Seq::<char>::empty();
        assert(escaped(nothing) == nothing);
        lemma_sendable_apart(a, nothing);
        assert(long + nothing == long);
        assert(sendable(long) == sendable(a).push('\n'));
        lemma_lines_apart(sendable(a), sendable(long_after), 'ⓘ');
    } else {
        assert(escaped(long) == long);
        assert(sendable(long) + sendable(long_after) == sendable(long_after));
        assert(without_lines(sendable(long), 'ⓘ') == sendable(long));
        assert(sendable(short) + sendable(short_after) == sendable(short_after));
    }
}

pub proof fn lemma_sent_apart(a: Seq<char>, b: Seq<char>)
    requires
        whole_lines(a),
    ensures
        sendable(a + b) == sendable(a) + sendable(b),
{
    let nothing = Seq::<char>::empty();
    assert(escaped(nothing) == nothing);
    if a.len() > 0 {
        let x = a.drop_last();
        assert(a == x.push('\n'));
        lemma_sendable_apart(x, b);
        lemma_sendable_apart(x, nothing);
        assert(a + nothing == a);
        assert(sendable(a) == sendable(x).push('\n'));
    } else {
        assert(a + b == b);
        assert(sendable(a) == nothing);
        assert(nothing + sendable(b) == sendable(b));
    }
}

} // verus!
