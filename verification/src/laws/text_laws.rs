//! Numbers, pieces of text, and what is sent of them.
use crate::lines::free_of;
use crate::markdown::{escaped, is_special, sendable};
use crate::text::{
    all_digits, comes_before, contains_text, cut, dec, digit_value, digits_value, is_digit,
    is_signed_within, is_unsigned, is_white_space, lemma_decimal_round_trip, lemma_first_of, parts,
    replaced, signed_padded, signed_value, stands_at, trimmed, trimmed_end, trimmed_start,
    unsigned_digits, zero_padded,
};
use vstd::arithmetic::power::{lemma_pow0, lemma_pow1, lemma_pow_adds, pow};
use vstd::prelude::*;

verus! {

// ---------------------------------------------------------------------------------------------
// Numbers
// ---------------------------------------------------------------------------------------------

/// The digits are the ten characters from `0` to `9` and no others, and their values are those that
/// they stand for.
pub proof fn law_digits(c: char)
    ensures
        is_digit(c) <==> "0123456789"@.contains(c),
        forall|d: int| 0 <= d < 10 ==> digit_value(#[trigger] "0123456789"@[d]) == d,
{
    reveal_strlit("0123456789");
    if is_digit(c) {
        assert("0123456789"@[c as int - '0' as int] == c);
    }
}

/// A digit that stands `n` places before the end counts for `10` to the power of `n` times its value:
/// written one behind the other, two numerals are the first one moved on and the second one.
pub proof fn law_places(a: Seq<char>, b: Seq<char>)
    ensures
        digits_value(a + b) == digits_value(a) * pow(10, b.len()) + digits_value(b),
        b.len() == 1 ==> digits_value(b) == digit_value(b[0]),
    decreases b.len(),
{
    if b.len() == 0 {
        assert(a + b == a);
        lemma_pow0(10);
    } else {
        let front = b.drop_last();
        law_places(a, front);
        assert((a + b).drop_last() == a + front);
        lemma_pow1(10);
        lemma_pow_adds(10, front.len(), 1);
        let (x, p) = (digits_value(a), pow(10, front.len()));
        assert(x * p * 10 == x * (p * 10)) by (nonlinear_arith);
        if b.len() == 1 {
            assert(digits_value(front) == 0);
        }
    }
}

/// A number that is written out has no zero in front of it, and is read back.
pub proof fn law_written_number(n: nat)
    ensures
        all_digits(dec(n)),
        digits_value(dec(n)) == n,
        n > 0 ==> dec(n)[0] != '0',
        n == 0 ==> dec(n) == "0"@,
    decreases n,
{
    reveal_strlit("0");
    lemma_decimal_round_trip(n);
    if n >= 10 {
        law_written_number(n / 10);
        lemma_decimal_round_trip(n / 10);
        assert(dec(n)[0] == dec(n / 10)[0]);
    }
}

/// Padding puts zeros in front of a text, so many that it has the width, and changes nothing where it
/// has it already.
pub proof fn law_padding(s: Seq<char>, width: nat)
    ensures
        ({
            let r = zero_padded(s, width);
            &&& r.len() == if s.len() > width {
                s.len()
            } else {
                width
            }
            &&& s.is_suffix_of(r)
            &&& forall|i: int| 0 <= i < r.len() - s.len() ==> #[trigger] r[i] == '0'
        }),
{
}

/// Zeros in front do not change a number.
pub proof fn law_padded_number(n: nat, width: nat)
    ensures
        all_digits(zero_padded(dec(n), width)),
        digits_value(zero_padded(dec(n), width)) == n,
        zero_padded(dec(n), width).len() >= width,
        zero_padded(dec(n), width).len() > width ==> zero_padded(dec(n), width) == dec(n),
{
    lemma_decimal_round_trip(n);
    let r = zero_padded(dec(n), width);
    if dec(n).len() < width {
        let zeros = Seq::new((width - dec(n).len()) as nat, |i: int| '0');
        lemma_zeros(zeros);
        law_places(zeros, dec(n));
        assert(r == zeros + dec(n));
        assert(0 * pow(10, dec(n).len()) == 0) by (nonlinear_arith);
    }
}

proof fn lemma_zeros(zeros: Seq<char>)
    requires
        forall|i: int| 0 <= i < zeros.len() ==> #[trigger] zeros[i] == '0',
    ensures
        digits_value(zeros) == 0,
    decreases zeros.len(),
{
    if zeros.len() > 0 {
        lemma_zeros(zeros.drop_last());
    }
}

/// A signed number is a minus sign where it is negative, and then digits that give its amount.
pub proof fn law_signed_number(n: int, width: nat)
    requires
        width >= 1,
    ensures
        ({
            let r = signed_padded(n, width);
            &&& r.len() >= width
            &&& if n < 0 {
                r[0] == '-' && all_digits(r.skip(1)) && digits_value(r.skip(1)) == -n
            } else {
                all_digits(r) && digits_value(r) == n
            }
        }),
{
    if n < 0 {
        law_padded_number((-n) as nat, (width - 1) as nat);
        assert(signed_padded(n, width).skip(1) == zero_padded(
            dec((-n) as nat),
            (width - 1) as nat,
        ));
    } else {
        law_padded_number(n as nat, width);
    }
}

/// Every number below the limit is read, with a plus sign or without one, and no other.
pub proof fn law_read_number(n: nat, limit: int)
    ensures
        is_unsigned(dec(n), limit) <==> n < limit,
        digits_value(unsigned_digits(dec(n))) == n,
        is_unsigned(seq!['+'] + dec(n), limit) <==> n < limit,
        digits_value(unsigned_digits(seq!['+'] + dec(n))) == n,
        !is_unsigned(seq!['-'] + dec(n), limit),
{
    lemma_decimal_round_trip(n);
    assert(is_digit(dec(n)[0]));
    assert((seq!['+'] + dec(n)).skip(1) == dec(n));
    assert(!is_digit((seq!['-'] + dec(n))[0]));
}

/// What is read as a number is made of digits, at least one, behind a plus sign or not.
pub proof fn law_only_numbers_are_read(s: Seq<char>, limit: int, i: int)
    requires
        0 <= i < s.len(),
        !("0123456789"@.contains(s[i])),
        i > 0 || s[i] != '+' || s.len() == 1,
    ensures
        !is_unsigned(s, limit),
{
    law_digits(s[i]);
    if s[0] == '+' {
        if i > 0 {
            assert(s.skip(1)[i - 1] == s[i]);
        }
    }
}

/// A number with a sign is read as what it says, if it is not too large.
pub proof fn law_read_signed(n: nat, max: int)
    ensures
        is_signed_within(dec(n), max) <==> n <= max,
        is_signed_within(seq!['+'] + dec(n), max) <==> n <= max,
        is_signed_within(seq!['-'] + dec(n), max) <==> n <= max,
        signed_value(dec(n)) == n,
        signed_value(seq!['+'] + dec(n)) == n,
        signed_value(seq!['-'] + dec(n)) == -n,
{
    lemma_decimal_round_trip(n);
    assert(is_digit(dec(n)[0]));
    assert((seq!['+'] + dec(n)).skip(1) == dec(n));
    assert((seq!['-'] + dec(n)).skip(1) == dec(n));
}

/// What holds another character than digits behind its sign is not read.
pub proof fn law_only_signed_are_read(s: Seq<char>, max: int, i: int)
    requires
        0 <= i < s.len(),
        !("0123456789"@.contains(s[i])),
        i > 0 || (s[i] != '+' && s[i] != '-') || s.len() == 1,
    ensures
        !is_signed_within(s, max),
{
    law_digits(s[i]);
    if s[0] == '+' || s[0] == '-' {
        if i > 0 {
            assert(s.skip(1)[i - 1] == s[i]);
        }
    }
}

// ---------------------------------------------------------------------------------------------
// Pieces of text
// ---------------------------------------------------------------------------------------------

/// Some texts with `sep` between them.
pub open spec fn joined(texts: Seq<Seq<char>>, sep: char) -> Seq<char>
    decreases texts.len(),
{
    if texts.len() == 0 {
        Seq::empty()
    } else if texts.len() == 1 {
        texts[0]
    } else {
        joined(texts.drop_last(), sep).push(sep) + texts.last()
    }
}

/// The parts of a text give the text again when they are joined, and the separator stands in none of
/// them.
pub proof fn law_parts(s: Seq<char>, sep: char)
    ensures
        parts(s, sep).len() > 0,
        joined(parts(s, sep), sep) == s,
        forall|i: int| 0 <= i < parts(s, sep).len() ==> free_of(#[trigger] parts(s, sep)[i], sep),
    decreases s.len(),
{
    let all = parts(s, sep);
    if s.len() == 0 {
        assert(all == seq![Seq::<char>::empty()]);
    } else {
        let before = parts(s.drop_last(), sep);
        law_parts(s.drop_last(), sep);
        if s.last() == sep {
            assert(all.drop_last() == before);
            assert(joined(all, sep) == s);
        } else {
            let last = before.last().push(s.last());
            assert(all == before.drop_last().push(last));
            assert(free_of(before[before.len() - 1], sep));
            assert(free_of(last, sep));
            assert forall|i: int| 0 <= i < all.len() implies free_of(#[trigger] all[i], sep) by {
                if i < all.len() - 1 {
                    assert(all[i] == before[i]);
                }
            }
            if before.len() == 1 {
                assert(joined(all, sep) == s);
            } else {
                assert(all.drop_last() == before.drop_last());
                assert(joined(all, sep) == joined(before, sep).push(s.last()));
                assert(joined(all, sep) == s);
            }
        }
    }
}

/// A text that is made of pieces without the separator falls into these pieces.
pub proof fn law_parts_of_joined(texts: Seq<Seq<char>>, sep: char)
    requires
        texts.len() > 0,
        forall|i: int| 0 <= i < texts.len() ==> free_of(#[trigger] texts[i], sep),
    ensures
        parts(joined(texts, sep), sep) == texts,
    decreases texts.len(),
{
    let last = texts.last();
    let front = texts.drop_last();
    assert(free_of(texts[texts.len() - 1], sep));
    if texts.len() == 1 {
        lemma_parts_append(Seq::empty(), last, sep);
        assert(Seq::<char>::empty() + last == last);
        assert(parts(Seq::<char>::empty(), sep) == seq![Seq::<char>::empty()]);
        assert(parts(last, sep) == texts);
    } else {
        assert forall|i: int| 0 <= i < front.len() implies free_of(#[trigger] front[i], sep) by {
            assert(front[i] == texts[i]);
        }
        law_parts_of_joined(front, sep);
        let s = joined(front, sep).push(sep);
        assert(s.drop_last() == joined(front, sep));
        assert(parts(s, sep) == front.push(Seq::<char>::empty()));
        lemma_parts_append(s, last, sep);
        assert(parts(s + last, sep) == texts);
    }
}

/// What is put behind a text without a separator becomes the end of its last part.
proof fn lemma_parts_append(s: Seq<char>, tail: Seq<char>, sep: char)
    requires
        free_of(tail, sep),
    ensures
        parts(s, sep).len() > 0,
        parts(s + tail, sep) == parts(s, sep).drop_last().push(parts(s, sep).last() + tail),
    decreases tail.len(),
{
    law_parts(s, sep);
    let before = parts(s, sep);
    if tail.len() == 0 {
        assert(s + tail == s);
        assert(before.last() + tail == before.last());
    } else {
        let shorter = tail.drop_last();
        assert forall|i: int| 0 <= i < shorter.len() implies #[trigger] shorter[i] != sep by {
            assert(shorter[i] == tail[i]);
        }
        lemma_parts_append(s, shorter, sep);
        assert((s + tail).drop_last() == s + shorter);
        assert((s + tail).last() == tail.last());
        assert(tail[tail.len() - 1] != sep);
        let now = parts(s + shorter, sep);
        assert(now.drop_last() == before.drop_last());
        assert(now.last().push(tail.last()) == before.last() + tail);
    }
}

/// A text is cut at its first `c`: what stands before it holds none, and nothing else is lost. A text
/// without `c` is not cut.
pub proof fn law_cut(a: Seq<char>, b: Seq<char>, c: char)
    requires
        free_of(a, c),
    ensures
        cut(a.push(c) + b, c) == Some((a, b)),
        cut(a, c) is None,
{
    let s = a.push(c) + b;
    assert forall|k: int| 0 <= k < a.len() implies s[k] != c by {
        assert(s[k] == a[k]);
    }
    lemma_first_of(s, c, a.len() as int);
    assert(s.take(a.len() as int) == a);
    assert(s.skip(a.len() as int + 1) == b);
    lemma_first_of(a, c, a.len() as int);
}

/// The text without the white space at its ends: only white space is lost, all of it is from the ends,
/// and none is left there.
pub proof fn law_trimmed(s: Seq<char>)
    ensures
        exists|a: Seq<char>, b: Seq<char>|
            #![trigger a + trimmed(s) + b]
            {
                &&& s == a + trimmed(s) + b
                &&& forall|i: int| 0 <= i < a.len() ==> is_white_space(#[trigger] a[i])
                &&& forall|i: int| 0 <= i < b.len() ==> is_white_space(#[trigger] b[i])
            },
        trimmed(s).len() > 0 ==> !is_white_space(trimmed(s)[0]) && !is_white_space(
            trimmed(s).last(),
        ),
{
    let a = lemma_trimmed_start(s);
    let t = trimmed_start(s);
    let b = lemma_trimmed_end(t);
    assert(s == a + trimmed(s) + b);
    if trimmed(s).len() > 0 {
        assert(trimmed(s)[0] == t[0]);
    }
}

proof fn lemma_trimmed_start(s: Seq<char>) -> (a: Seq<char>)
    ensures
        s == a + trimmed_start(s),
        forall|i: int| 0 <= i < a.len() ==> is_white_space(#[trigger] a[i]),
        trimmed_start(s).len() > 0 ==> !is_white_space(trimmed_start(s)[0]),
    decreases s.len(),
{
    if s.len() > 0 && is_white_space(s[0]) {
        let rest = lemma_trimmed_start(s.skip(1));
        let a = seq![s[0]] + rest;
        assert(s == seq![s[0]] + s.skip(1));
        assert(s == a + trimmed_start(s));
        a
    } else {
        assert(s == Seq::<char>::empty() + s);
        Seq::empty()
    }
}

proof fn lemma_trimmed_end(s: Seq<char>) -> (b: Seq<char>)
    ensures
        s == trimmed_end(s) + b,
        forall|i: int| 0 <= i < b.len() ==> is_white_space(#[trigger] b[i]),
        trimmed_end(s).len() > 0 ==> !is_white_space(trimmed_end(s).last()),
    decreases s.len(),
{
    if s.len() > 0 && is_white_space(s.last()) {
        let rest = lemma_trimmed_end(s.drop_last());
        let b = rest.push(s.last());
        assert(s == s.drop_last().push(s.last()));
        assert(s == trimmed_end(s) + b);
        b
    } else {
        assert(s == s + Seq::<char>::empty());
        Seq::empty()
    }
}

/// White space are the characters with the Unicode property `White_Space`, by their code points.
pub proof fn law_white_space(c: char)
    ensures
        is_white_space(c) <==> {
            let n = c as int;
            9 <= n <= 13 || n == 32 || n == 133 || n == 160 || n == 5760 || 8192 <= n <= 8202 || n
                == 8232 || n == 8233 || n == 8239 || n == 8287 || n == 12288
        },
{
}

/// In the dictionary, a text stands before another if it is the beginning of it, or if it has the
/// smaller character where the two first differ. `n` is how many characters they share.
pub proof fn law_dictionary(a: Seq<char>, b: Seq<char>, n: int)
    requires
        0 <= n <= a.len(),
        n <= b.len(),
        forall|i: int| 0 <= i < n ==> a[i] == b[i],
        n < a.len() && n < b.len() ==> a[n] != b[n],
    ensures
        comes_before(a, b) <==> n < b.len() && (n == a.len() || a[n] < b[n]),
    decreases n,
{
    if n > 0 {
        assert(a[0] == b[0]);
        law_dictionary(a.skip(1), b.skip(1), n - 1);
    }
}

/// A text is found wherever it stands between two others, and where it is found it stands so.
pub proof fn law_found(a: Seq<char>, x: Seq<char>, b: Seq<char>)
    ensures
        contains_text(a + x + b, x),
{
    let s = a + x + b;
    assert(s.subrange(a.len() as int, (a.len() + x.len()) as int) == x);
    assert(stands_at(s, a.len() as int, x));
}

/// Where a text is found, it stands between two others.
pub proof fn law_found_between(s: Seq<char>, x: Seq<char>)
    requires
        contains_text(s, x),
    ensures
        exists|a: Seq<char>, b: Seq<char>| s == #[trigger] (a + x + b),
{
    let i = choose|i: int| #[trigger] stands_at(s, i, x);
    assert(s == s.take(i) + x + s.skip(i + x.len()));
}

/// An exchange finds the first `pat` and goes on behind it: what stands before it stays, and where
/// there is none, nothing changes.
pub proof fn law_exchange(a: Seq<char>, b: Seq<char>, pat: Seq<char>, rep: Seq<char>)
    requires
        pat.len() > 0,
        forall|i: int| 0 <= i < a.len() ==> !#[trigger] stands_at(a + pat + b, i, pat),
    ensures
        replaced(a + pat + b, pat, rep) == a + rep + replaced(b, pat, rep),
    decreases a.len(),
{
    let s = a + pat + b;
    if a.len() == 0 {
        assert(s.subrange(0, pat.len() as int) == pat);
        assert(stands_at(s, 0, pat));
        assert(s.skip(pat.len() as int) == b);
        assert(a + rep + replaced(b, pat, rep) == rep + replaced(b, pat, rep));
    } else {
        assert(!stands_at(s, 0, pat));
        let rest = a.skip(1);
        assert(s.skip(1) == rest + pat + b);
        assert forall|i: int| 0 <= i < rest.len() implies !#[trigger] stands_at(
            rest + pat + b,
            i,
            pat,
        ) by {
            if stands_at(rest + pat + b, i, pat) {
                assert((rest + pat + b).subrange(i, i + pat.len()) == s.subrange(
                    i + 1,
                    i + 1 + pat.len(),
                ));
                assert(stands_at(s, i + 1, pat));
            }
        }
        law_exchange(rest, b, pat, rep);
        assert(a == seq![a[0]] + rest);
        assert(seq![s[0]] + (rest + rep + replaced(b, pat, rep)) == a + rep + replaced(b, pat, rep));
    }
}

/// Without `pat` in it, a text is not changed by an exchange.
pub proof fn law_no_exchange(s: Seq<char>, pat: Seq<char>, rep: Seq<char>)
    requires
        !contains_text(s, pat),
    ensures
        replaced(s, pat, rep) == s,
    decreases s.len(),
{
    if s.len() > 0 && pat.len() > 0 {
        assert(!stands_at(s, 0, pat));
        assert forall|i: int| !#[trigger] stands_at(s.skip(1), i, pat) by {
            if stands_at(s.skip(1), i, pat) {
                assert(s.skip(1).subrange(i, i + pat.len()) == s.subrange(
                    i + 1,
                    i + 1 + pat.len(),
                ));
                assert(stands_at(s, i + 1, pat));
            }
        }
        law_no_exchange(s.skip(1), pat, rep);
        assert(s == seq![s[0]] + s.skip(1));
    }
}

// ---------------------------------------------------------------------------------------------
// What is sent
// ---------------------------------------------------------------------------------------------

/// Texts are escaped character by character: the nine special ones get a backslash, and the others
/// stay as they are.
pub proof fn law_escaped(a: Seq<char>, c: char)
    ensures
        escaped(a.push(c)) == if ".!+-<>()="@.contains(c) {
            escaped(a).push('\\').push(c)
        } else {
            escaped(a).push(c)
        },
        escaped(Seq::<char>::empty()) == Seq::<char>::empty(),
{
    reveal_strlit(".!+-<>()=");
    assert(a.push(c).drop_last() == a);
    let specials = ".!+-<>()="@;
    if is_special(c) {
        assert(specials[0] == '.' && specials[1] == '!' && specials[2] == '+' && specials[3] == '-'
            && specials[4] == '<' && specials[5] == '>' && specials[6] == '(' && specials[7] == ')'
            && specials[8] == '=');
        assert(specials.contains(c));
    }
}

/// Where the one ampersand of a text is the start of one of the two entities, the entity is sent as the
/// character that it stands for, and what stands around it as if it stood alone. A text without an
/// ampersand is only escaped.
pub proof fn law_entities(a: Seq<char>, b: Seq<char>)
    requires
        free_of(a, '&'),
        free_of(b, '&'),
    ensures
        !stands_at(escaped(b), 0, "nbsp;"@) ==> sendable(a + "&amp;"@ + b) == escaped(a) + "&"@
            + escaped(b),
        sendable(a + "&nbsp;"@ + b) == escaped(a) + " "@ + escaped(b),
        sendable(a) == escaped(a),
{
    reveal_strlit("&amp;");
    reveal_strlit("&nbsp;");
    reveal_strlit("nbsp;");
    reveal_strlit("&");
    reveal_strlit(" ");
    let (amp, nbsp) = ("&amp;"@, "&nbsp;"@);
    lemma_escaped_sum(a + amp, b);
    lemma_escaped_sum(a, amp);
    lemma_escaped_sum(a + nbsp, b);
    lemma_escaped_sum(a, nbsp);
    lemma_escaped_same(amp);
    lemma_escaped_same(nbsp);
    let (x, y) = (escaped(a), escaped(b));
    lemma_escaped_without(a);
    lemma_escaped_without(b);
    lemma_no_ampersand(x, amp);
    lemma_no_ampersand(y, amp);
    lemma_no_ampersand(x, nbsp);
    lemma_no_ampersand(y, nbsp);
    law_no_exchange(x, amp, "&"@);
    law_no_exchange(y, amp, "&"@);
    law_no_exchange(x, nbsp, " "@);
    law_no_exchange(y, nbsp, " "@);
    lemma_not_before(x, amp, y);
    law_exchange(x, y, amp, "&"@);
    let decoded = x + "&"@ + y;
    if !stands_at(y, 0, "nbsp;"@) {
        assert forall|i: int| !#[trigger] stands_at(decoded, i, nbsp) by {
            if stands_at(decoded, i, nbsp) {
                let piece = decoded.subrange(i, i + 6);
                assert(piece[0] == decoded[i]);
                if i < x.len() {
                    assert(decoded[i] == x[i]);
                } else if i > x.len() {
                    assert(decoded[i] == y[i - x.len() - 1]);
                }
                assert(i == x.len());
                assert(y.subrange(0, 5) == piece.skip(1));
                assert("nbsp;"@ == nbsp.skip(1));
                assert(stands_at(y, 0, "nbsp;"@));
            }
        }
        law_no_exchange(decoded, nbsp, " "@);
    }
    let other = x + nbsp + y;
    assert forall|i: int| !#[trigger] stands_at(other, i, amp) by {
        if stands_at(other, i, amp) {
            let piece = other.subrange(i, i + 5);
            assert(piece[0] == other[i] && piece[1] == other[i + 1]);
            if i < x.len() {
                assert(other[i] == x[i]);
            } else if i >= x.len() + 6 {
                assert(other[i] == y[i - x.len() - 6]);
            } else {
                assert(other[i] == nbsp[i - x.len()]);
            }
        }
    }
    law_no_exchange(other, amp, "&"@);
    lemma_not_before(x, nbsp, y);
    law_exchange(x, y, nbsp, " "@);
}

proof fn lemma_not_before(x: Seq<char>, entity: Seq<char>, y: Seq<char>)
    requires
        free_of(x, '&'),
        entity.len() > 0,
        entity[0] == '&',
    ensures
        forall|i: int| 0 <= i < x.len() ==> !#[trigger] stands_at(x + entity + y, i, entity),
{
    let s = x + entity + y;
    assert forall|i: int| 0 <= i < x.len() implies !#[trigger] stands_at(s, i, entity) by {
        if stands_at(s, i, entity) {
            assert(s.subrange(i, i + entity.len())[0] == x[i]);
        }
    }
}

proof fn lemma_no_ampersand(s: Seq<char>, entity: Seq<char>)
    requires
        free_of(s, '&'),
        entity.len() > 0,
        entity[0] == '&',
    ensures
        !contains_text(s, entity),
{
    assert forall|i: int| !#[trigger] stands_at(s, i, entity) by {
        if stands_at(s, i, entity) {
            assert(s.subrange(i, i + entity.len())[0] == s[i]);
        }
    }
}

proof fn lemma_escaped_sum(a: Seq<char>, b: Seq<char>)
    ensures
        escaped(a + b) == escaped(a) + escaped(b),
    decreases b.len(),
{
    if b.len() == 0 {
        assert(a + b == a);
    } else {
        lemma_escaped_sum(a, b.drop_last());
        assert((a + b).drop_last() == a + b.drop_last());
    }
}

proof fn lemma_escaped_same(s: Seq<char>)
    requires
        forall|i: int| 0 <= i < s.len() ==> !is_special(#[trigger] s[i]),
    ensures
        escaped(s) == s,
    decreases s.len(),
{
    if s.len() > 0 {
        lemma_escaped_same(s.drop_last());
    }
}

proof fn lemma_escaped_without(s: Seq<char>)
    requires
        free_of(s, '&'),
    ensures
        free_of(escaped(s), '&'),
    decreases s.len(),
{
    if s.len() > 0 {
        lemma_escaped_without(s.drop_last());
        assert(s[s.len() - 1] != '&');
    }
}

} // verus!
