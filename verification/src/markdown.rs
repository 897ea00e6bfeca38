//! Telegram's MarkdownV2.
use crate::text::{chars_of, contains_text, replace_text, replaced, stands_at};
use vstd::prelude::*;

verus! {

/// `s` between two stars.
pub open spec fn bold_text(s: Seq<char>) -> Seq<char> {
    seq!['*'] + s + seq!['*']
}

/// `s` between two underscores. A text that is already underlined ends in a carriage return between
/// the two marks, written out as a backslash and an `r`.
pub open spec fn italic_text(s: Seq<char>) -> Seq<char> {
    if s.len() >= 2 && s[0] == '_' && s[1] == '_' && s[s.len() - 2] == '_' && s.last() == '_' {
        seq!['_'] + s.drop_last() + seq!['\\', 'r', '_', '_']
    } else {
        seq!['_'] + s + seq!['_']
    }
}

/// `s` between two pairs of underscores. A text that is already italic ends in a carriage return
/// between the two marks, written out as a backslash and an `r`.
pub open spec fn underline_text(s: Seq<char>) -> Seq<char> {
    if s.len() >= 1 && s[0] == '_' && s.last() == '_' {
        seq!['_', '_'] + s + seq!['\\', 'r', '_', '_']
    } else {
        seq!['_', '_'] + s + seq!['_', '_']
    }
}

/// `teloxide::utils::markdown::bold` puts the text between two stars and escapes nothing.
#[verifier::external_body]
pub(crate) fn bold(s: &str) -> (r: String)
    ensures
        r@ == bold_text(s@),
{
    teloxide::utils::markdown::bold(s)
}

/// `teloxide::utils::markdown::italic` puts the text between underscores, with the exception that
/// `italic_text` states, and escapes nothing.
#[verifier::external_body]
pub(crate) fn italic(s: &str) -> (r: String)
    ensures
        r@ == italic_text(s@),
{
    teloxide::utils::markdown::italic(s)
}

/// `teloxide::utils::markdown::underline` puts the text between pairs of underscores, with the
/// exception that `underline_text` states, and escapes nothing.
#[verifier::external_body]
pub(crate) fn underline(s: &str) -> (r: String)
    ensures
        r@ == underline_text(s@),
{
    teloxide::utils::markdown::underline(s)
}

/// The characters that Telegram only takes behind a backslash, as far as they are no marks of ours.
pub open spec fn is_special(c: char) -> bool {
    ||| c == '.'
    ||| c == '!'
    ||| c == '+'
    ||| c == '-'
    ||| c == '<'
    ||| c == '>'
    ||| c == '('
    ||| c == ')'
    ||| c == '='
}

/// `s` with a backslash in front of every special character.
pub open spec fn escaped(s: Seq<char>) -> Seq<char>
    decreases s.len(),
{
    if s.len() == 0 {
        Seq::empty()
    } else if is_special(s.last()) {
        escaped(s.drop_last()).push('\\').push(s.last())
    } else {
        escaped(s.drop_last()).push(s.last())
    }
}

/// `s` with a backslash in front of every special character.
pub fn escape_specials(s: &str) -> (r: String)
    ensures
        r@ == escaped(s@),
{
    let v = chars_of(s);
    let mut r = String::new();
    let mut i: usize = 0;
    while i < v.len()
        invariant
            i <= v@.len(),
            r@ == escaped(v@.take(i as int)),
        decreases v.len() - i,
    {
        let c = v[i];
        if c == '.' || c == '!' || c == '+' || c == '-' || c == '<' || c == '>' || c == '(' || c
            == ')' || c == '=' {
            r.push('\\');
        }
        r.push(c);
        assert(v@.take(i + 1).drop_last() == v@.take(i as int));
        i += 1;
    }
    assert(v@.take(v@.len() as int) == v@);
    r
}

/// A text ready to be sent: special characters escaped, and the two entities that come through
/// undecoded put right.
pub open spec fn sendable(s: Seq<char>) -> Seq<char> {
    replaced(replaced(escaped(s), "&amp;"@, "&"@), "&nbsp;"@, " "@)
}

/// Makes a text ready to be sent.
pub fn escape_markdown_v2(input: &str) -> (r: String)
    ensures
        r@ == sendable(input@),
{
    proof {
        reveal_strlit("&amp;");
        reveal_strlit("&nbsp;");
    }
    let escaped_input = escape_specials(input);
    let decoded = replace_text(escaped_input.as_str(), "&amp;", "&");
    replace_text(decoded.as_str(), "&nbsp;", " ")
}

/// Every special character stands behind a backslash.
pub open spec fn well_escaped(s: Seq<char>) -> bool {
    forall|i: int| 0 <= i < s.len() && is_special(#[trigger] s[i]) ==> i > 0 && s[i - 1] == '\\'
}

/// Every special character but one at the very start stands behind a backslash.
spec fn escaped_inside(s: Seq<char>) -> bool {
    forall|i: int| 0 < i < s.len() && is_special(#[trigger] s[i]) ==> s[i - 1] == '\\'
}

proof fn lemma_escaped(s: Seq<char>)
    ensures
        well_escaped(escaped(s)),
    decreases s.len(),
{
    if s.len() > 0 {
        lemma_escaped(s.drop_last());
    }
}

/// An exchange leaves a text escaped if what goes holds no backslash and what comes holds no special
/// character.
proof fn lemma_replaced_escaped(s: Seq<char>, pat: Seq<char>, rep: Seq<char>)
    requires
        escaped_inside(s),
        pat.len() > 0,
        forall|i: int| 0 <= i < pat.len() ==> pat[i] != '\\',
        rep.len() > 0,
        forall|i: int| 0 <= i < rep.len() ==> !is_special(rep[i]),
    ensures
        escaped_inside(replaced(s, pat, rep)),
        replaced(s, pat, rep).len() > 0 && is_special(replaced(s, pat, rep)[0]) ==> s.len() > 0
            && is_special(s[0]),
    decreases s.len(),
{
    if s.len() > 0 {
        if stands_at(s, 0, pat) {
            let n = pat.len() as int;
            let rest = replaced(s.skip(n), pat, rep);
            lemma_replaced_escaped(s.skip(n), pat, rep);
            assert(s.subrange(0, n)[n - 1] == pat[n - 1]);
            let all = rep + rest;
            assert forall|i: int| 0 < i < all.len() && is_special(#[trigger] all[i]) implies all[i
                - 1] == '\\' by {
                if i > rep.len() {
                    assert(rest[i - rep.len()] == all[i]);
                } else if i == rep.len() {
                    assert(rest[0] == all[i]);
                    assert(is_special(s.skip(n)[0]));
                    assert(is_special(s[n]));
                    assert(false);
                }
            }
        } else {
            let rest = replaced(s.skip(1), pat, rep);
            lemma_replaced_escaped(s.skip(1), pat, rep);
            let all = seq![s[0]] + rest;
            assert forall|i: int| 0 < i < all.len() && is_special(#[trigger] all[i]) implies all[i
                - 1] == '\\' by {
                assert(rest[i - 1] == all[i]);
                if i == 1 {
                    assert(is_special(s.skip(1)[0]));
                    assert(is_special(s[1]));
                }
            }
        }
    }
}

/// In an escaped text, every special character stays behind its backslash when ampersands are
/// decoded.
pub proof fn lemma_ampersands_decoded(s: Seq<char>)
    ensures
        well_escaped(replaced(escaped(s), "&amp;"@, "&"@)),
{
    reveal_strlit("&amp;");
    reveal_strlit("&");
    lemma_escaped(s);
    lemma_replaced_escaped(escaped(s), "&amp;"@, "&"@);
}

/// In a text that is ready to be sent, every special character stands behind a backslash.
pub proof fn law_sendable_is_escaped(s: Seq<char>)
    ensures
        well_escaped(sendable(s)),
{
    reveal_strlit("&nbsp;");
    reveal_strlit(" ");
    lemma_ampersands_decoded(s);
    lemma_replaced_escaped(replaced(escaped(s), "&amp;"@, "&"@), "&nbsp;"@, " "@);
}

proof fn lemma_escaped_plain(s: Seq<char>)
    requires
        forall|i: int| 0 <= i < s.len() ==> !is_special(#[trigger] s[i]),
    ensures
        escaped(s) == s,
    decreases s.len(),
{
    if s.len() > 0 {
        lemma_escaped_plain(s.drop_last());
        assert(s == s.drop_last().push(s.last()));
    }
}

proof fn lemma_replaced_absent(s: Seq<char>, pat: Seq<char>, rep: Seq<char>)
    requires
        !contains_text(s, pat),
    ensures
        replaced(s, pat, rep) == s,
    decreases s.len(),
{
    if s.len() > 0 && pat.len() > 0 {
        assert(!stands_at(s, 0, pat));
        assert forall|i: int| !#[trigger] stands_at(s.skip(1), i, pat) by {
            if stands_at(s.skip(1), i, pat) {
                assert(s.skip(1).subrange(i, i + pat.len()) == s.subrange(
                    i + 1,
                    i + 1 + pat.len(),
                ));
                assert(stands_at(s, i + 1, pat));
            }
        }
        lemma_replaced_absent(s.skip(1), pat, rep);
        assert(s == seq![s[0]] + s.skip(1));
    }
}

/// A text without special characters and without the two entities is sent as it is.
pub proof fn law_plain_text_unchanged(s: Seq<char>)
    requires
        forall|i: int| 0 <= i < s.len() ==> !is_special(#[trigger] s[i]),
        !contains_text(s, "&amp;"@),
        !contains_text(s, "&nbsp;"@),
    ensures
        sendable(s) == s,
{
    lemma_escaped_plain(s);
    lemma_replaced_absent(s, "&amp;"@, "&"@);
    lemma_replaced_absent(s, "&nbsp;"@, " "@);
}

} // verus!
