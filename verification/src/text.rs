//! Splitting and trimming of text, stated over sequences of characters.

use vstd::prelude::*;
use vstd::string::*;

verus! {

/// Whether `c` carries the Unicode property `White_Space`.
pub uninterp spec fn white_space(c: char) -> bool;

/// `char::is_whitespace` of the standard library, which is documented to
/// return `true` exactly for the characters with the `White_Space` property.
/// The contract only gives that answer its name.
#[verifier::external_body]
pub(crate) fn is_whitespace(c: char) -> (b: bool)
    ensures
        b == white_space(c),
{
    c.is_whitespace()
}

/// The number of white-space characters `s` starts with.
pub open spec fn leading_space(s: Seq<char>) -> nat
    decreases s.len(),
{
    if s.len() > 0 && white_space(s[0]) {
        1 + leading_space(s.drop_first())
    } else {
        0
    }
}

/// The number of white-space characters `s` ends with.
pub open spec fn trailing_space(s: Seq<char>) -> nat
    decreases s.len(),
{
    if s.len() > 0 && white_space(s.last()) {
        1 + trailing_space(s.drop_last())
    } else {
        0
    }
}

/// `s` without its leading and trailing white space.
pub open spec fn trimmed(s: Seq<char>) -> Seq<char> {
    let t = s.skip(leading_space(s) as int);
    t.take(t.len() - trailing_space(t))
}

/// The number of characters before the first `sep` in `s` (all of them if
/// there is none).
pub open spec fn lead_until(s: Seq<char>, sep: char) -> nat
    decreases s.len(),
{
    if s.len() > 0 && s[0] != sep {
        1 + lead_until(s.drop_first(), sep)
    } else {
        0
    }
}

/// The pieces of `s` between occurrences of `sep`, each one trimmed. A text
/// with `n` separators has `n + 1` pieces; a piece may be empty.
pub open spec fn tokens_of(s: Seq<char>, sep: char) -> Seq<Seq<char>>
    decreases s.len(),
{
    let k = lead_until(s, sep) as int;
    if k >= s.len() {
        seq![trimmed(s)]
    } else {
        seq![trimmed(s.take(k))] + tokens_of(s.skip(k + 1), sep)
    }
}

/// The number of characters other than white space that `s` starts with.
pub open spec fn lead_word(s: Seq<char>) -> nat
    decreases s.len(),
{
    if s.len() > 0 && !white_space(s[0]) {
        1 + lead_word(s.drop_first())
    } else {
        0
    }
}

/// The maximal runs of characters other than white space in `s`, in order.
pub open spec fn words(s: Seq<char>) -> Seq<Seq<char>>
    decreases s.len(),
{
    if s.len() == 0 {
        Seq::empty()
    } else if white_space(s[0]) {
        words(s.drop_first())
    } else {
        let k = lead_word(s) as int;
        proof {
            lemma_lead_word_bound(s);
        }
        seq![s.take(k)] + words(s.skip(k))
    }
}

/// The texts that a vector of strings holds.
pub open spec fn views(v: Seq<String>) -> Seq<Seq<char>> {
    Seq::new(v.len(), |i: int| v[i]@)
}

/// Every text has at least one piece.
pub proof fn lemma_tokens_nonempty(s: Seq<char>, sep: char)
    ensures
        tokens_of(s, sep).len() >= 1,
{
}

pub proof fn lemma_lead_word_bound(s: Seq<char>)
    ensures
        lead_word(s) <= s.len(),
    decreases s.len(),
{
    if s.len() > 0 && !white_space(s[0]) {
        lemma_lead_word_bound(s.drop_first());
    }
}

/// `k` characters other than `sep`, followed by `sep` or by the end of `s`,
/// are the whole lead of `s` before `sep`.
proof fn lemma_lead_until_is(s: Seq<char>, sep: char, k: int)
    requires
        0 <= k <= s.len(),
        forall|j: int| 0 <= j < k ==> s[j] != sep,
        k < s.len() ==> s[k] == sep,
    ensures
        lead_until(s, sep) == k,
    decreases k,
{
    if k > 0 {
        let t = s.drop_first();
        assert forall|j: int| 0 <= j < k - 1 implies t[j] != sep by {
            assert(t[j] == s[j + 1]);
        }
        lemma_lead_until_is(t, sep, k - 1);
    }
}

proof fn lemma_lead_word_is(s: Seq<char>, k: int)
    requires
        0 <= k <= s.len(),
        forall|j: int| 0 <= j < k ==> !white_space(s[j]),
        k < s.len() ==> white_space(s[k]),
    ensures
        lead_word(s) == k,
    decreases k,
{
    if k > 0 {
        let t = s.drop_first();
        assert forall|j: int| 0 <= j < k - 1 implies !white_space(t[j]) by {
            assert(t[j] == s[j + 1]);
        }
        lemma_lead_word_is(t, k - 1);
    }
}

proof fn lemma_leading_space_is(s: Seq<char>, k: int)
    requires
        0 <= k <= s.len(),
        forall|j: int| 0 <= j < k ==> white_space(s[j]),
        k < s.len() ==> !white_space(s[k]),
    ensures
        leading_space(s) == k,
    decreases k,
{
    if k > 0 {
        let t = s.drop_first();
        assert forall|j: int| 0 <= j < k - 1 implies white_space(t[j]) by {
            assert(t[j] == s[j + 1]);
        }
        lemma_leading_space_is(t, k - 1);
    }
}

proof fn lemma_trailing_space_is(s: Seq<char>, k: int)
    requires
        0 <= k <= s.len(),
        forall|j: int| s.len() - k <= j < s.len() ==> white_space(s[j]),
        k < s.len() ==> !white_space(s[s.len() - k - 1]),
    ensures
        trailing_space(s) == k,
    decreases k,
{
    if k > 0 {
        let t = s.drop_last();
        assert forall|j: int| t.len() - (k - 1) <= j < t.len() implies white_space(t[j]) by {
            assert(t[j] == s[j]);
        }
        lemma_trailing_space_is(t, k - 1);
    }
}

/// Trimming never lengthens a text, and leaves no white space at either end.
pub proof fn lemma_trimmed_ends(s: Seq<char>)
    ensures
        trimmed(s).len() <= s.len(),
        trimmed(s).len() > 0 ==> !white_space(trimmed(s)[0]) && !white_space(trimmed(s).last()),
{
    lemma_leading_space_shape(s);
    let t = s.skip(leading_space(s) as int);
    lemma_trailing_space_shape(t);
}

proof fn lemma_leading_space_shape(s: Seq<char>)
    ensures
        leading_space(s) <= s.len(),
        leading_space(s) < s.len() ==> !white_space(s[leading_space(s) as int]),
    decreases s.len(),
{
    if s.len() > 0 && white_space(s[0]) {
        lemma_leading_space_shape(s.drop_first());
    }
}

proof fn lemma_trailing_space_shape(s: Seq<char>)
    ensures
        trailing_space(s) <= s.len(),
        trailing_space(s) < s.len() ==> !white_space(s[s.len() - trailing_space(s) - 1]),
    decreases s.len(),
{
    if s.len() > 0 && white_space(s.last()) {
        lemma_trailing_space_shape(s.drop_last());
    }
}

/// The bounds of the part of `text` between the character positions `from`
/// and `to` that is left when white space is removed at both ends.
pub fn trim_range(text: &str, from: usize, to: usize) -> (r: (usize, usize))
    requires
        from <= to <= text@.len(),
    ensures
        from <= r.0 <= r.1 <= to,
        text@.subrange(r.0 as int, r.1 as int) == trimmed(text@.subrange(from as int, to as int)),
{
    let ghost sub = text@.subrange(from as int, to as int);
    let mut a: usize = from;
    while a < to
        invariant
            from <= a <= to <= text@.len(),
            sub == text@.subrange(from as int, to as int),
            forall|j: int| 0 <= j < a - from ==> white_space(sub[j]),
        ensures
            from <= a <= to,
            forall|j: int| 0 <= j < a - from ==> white_space(sub[j]),
            a < to ==> !white_space(sub[a - from]),
        decreases to - a,
    {
        let c = text.get_char(a);
        if !is_whitespace(c) {
            break ;
        }
        a += 1;
    }
    proof {
        lemma_leading_space_is(sub, a - from);
    }
    let ghost rest = sub.skip(a - from);
    let mut b: usize = to;
    while b > a
        invariant
            from <= a <= b <= to <= text@.len(),
            sub == text@.subrange(from as int, to as int),
            rest == sub.skip(a - from),
            forall|j: int| b - a <= j < rest.len() ==> white_space(rest[j]),
        ensures
            a <= b <= to,
            forall|j: int| b - a <= j < rest.len() ==> white_space(rest[j]),
            b > a ==> !white_space(rest[b - a - 1]),
        decreases b - a,
    {
        let c = text.get_char(b - 1);
        if !is_whitespace(c) {
            break ;
        }
        b -= 1;
    }
    proof {
        lemma_trailing_space_is(rest, to - b);
        assert(text@.subrange(a as int, b as int) =~= rest.take(rest.len() - (to - b)));
    }
    (a, b)
}

/// `text` without its leading and trailing white space.
pub fn trim(text: &str) -> (out: String)
    ensures
        out@ == trimmed(text@),
{
    let n = text.unicode_len();
    let (a, b) = trim_range(text, 0, n);
    assert(text@.subrange(0, n as int) =~= text@);
    text.substring_char(a, b).to_owned()
}

/// Splits `text` at every `sep` and trims each piece.
pub fn split_trimmed(text: &str, sep: char) -> (out: Vec<String>)
    ensures
        views(out@) == tokens_of(text@, sep),
{
    let n = text.unicode_len();
    let mut out: Vec<String> = Vec::new();
    let mut start: usize = 0;
    let mut i: usize = 0;
    assert(text@.skip(0) =~= text@);
    assert(views(out@) =~= Seq::<Seq<char>>::empty());
    while i < n
        invariant
            start <= i <= n == text@.len(),
            forall|j: int| start <= j < i ==> text@[j] != sep,
            tokens_of(text@, sep) == views(out@) + tokens_of(text@.skip(start as int), sep),
        decreases n - i,
    {
        let c = text.get_char(i);
        if c == sep {
            let (a, b) = trim_range(text, start, i);
            let piece = text.substring_char(a, b).to_owned();
            proof {
                let t = text@.skip(start as int);
                lemma_lead_until_is(t, sep, i - start);
                assert(t.take(i - start) =~= text@.subrange(start as int, i as int));
                assert(t.skip(i - start + 1) =~= text@.skip(i + 1));
                assert(views(out@.push(piece)) =~= views(out@).push(piece@));
                assert(views(out@).push(piece@) + tokens_of(text@.skip(i + 1), sep) =~= views(out@)
                    + (seq![piece@] + tokens_of(text@.skip(i + 1), sep)));
            }
            out.push(piece);
            start = i + 1;
        }
        i += 1;
    }
    let (a, b) = trim_range(text, start, n);
    let piece = text.substring_char(a, b).to_owned();
    proof {
        let t = text@.skip(start as int);
        lemma_lead_until_is(t, sep, n - start);
        assert(t =~= text@.subrange(start as int, n as int));
        assert(views(out@.push(piece)) =~= views(out@).push(piece@));
        assert(views(out@).push(piece@) =~= views(out@) + seq![piece@]);
    }
    out.push(piece);
    out
}

/// Splits `text` into its maximal runs of characters other than white space.
pub fn split_words(text: &str) -> (out: Vec<String>)
    ensures
        views(out@) == words(text@),
{
    let n = text.unicode_len();
    let mut out: Vec<String> = Vec::new();
    let mut i: usize = 0;
    assert(text@.skip(0) =~= text@);
    assert(views(out@) =~= Seq::<Seq<char>>::empty());
    while i < n
        invariant
            i <= n == text@.len(),
            words(text@) == views(out@) + words(text@.skip(i as int)),
        decreases n - i,
    {
        let c = text.get_char(i);
        let ghost t = text@.skip(i as int);
        assert(t[0] == c);
        if is_whitespace(c) {
            assert(t.drop_first() =~= text@.skip(i + 1));
            i += 1;
        } else {
            let mut j: usize = i + 1;
            while j < n
                invariant
                    i < j <= n == text@.len(),
                    forall|k: int| i <= k < j ==> !white_space(text@[k]),
                ensures
                    i < j <= n,
                    forall|k: int| i <= k < j ==> !white_space(text@[k]),
                    j < n ==> white_space(text@[j as int]),
                decreases n - j,
            {
                let d = text.get_char(j);
                if is_whitespace(d) {
                    break ;
                }
                j += 1;
            }
            let word = text.substring_char(i, j).to_owned();
            proof {
                lemma_lead_word_is(t, j - i);
                assert(t.take(j - i) =~= text@.subrange(i as int, j as int));
                assert(t.skip(j - i) =~= text@.skip(j as int));
                assert(views(out@.push(word)) =~= views(out@).push(word@));
                assert(views(out@).push(word@) + words(text@.skip(j as int)) =~= views(out@) + (
                seq![word@] + words(text@.skip(j as int))));
            }
            out.push(word);
            i = j;
        }
    }
    proof {
        assert(text@.skip(n as int).len() == 0);
        assert(views(out@) + Seq::<Seq<char>>::empty() =~= views(out@));
    }
    out
}

/// Whether two texts hold the same characters.
pub fn same_text(a: &str, b: &str) -> (r: bool)
    ensures
        r == (a@ == b@),
{
    let n = a.unicode_len();
    if b.unicode_len() != n {
        return false;
    }
    let mut i: usize = 0;
    while i < n
        invariant
            i <= n,
            n == a@.len(),
            n == b@.len(),
            forall|j: int| 0 <= j < i ==> a@[j] == b@[j],
        decreases n - i,
    {
        if a.get_char(i) != b.get_char(i) {
            return false;
        }
        i += 1;
    }
    assert(a@ =~= b@);
    true
}

} // verus!
