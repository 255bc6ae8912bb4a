//! Character-level helpers on strings, stated over their views as `Seq<char>`.
use vstd::prelude::*;

verus! {

/// `p` is a prefix of `s`.
pub open spec fn is_prefix(p: Seq<char>, s: Seq<char>) -> bool {
    p.len() <= s.len() && s.take(p.len() as int) == p
}

/// What std's `char::is_numeric` answers for a character: whether it lies in one
/// of Unicode's general categories for numbers (`Nd`, `Nl`, `No`).
pub uninterp spec fn char_numeric(c: char) -> bool;

/// Whether a character is numeric: among the ASCII characters exactly the
/// digits `0`-`9` are (no other ASCII character lies in a number category);
/// beyond ASCII it is what Unicode's number categories say (`char_numeric`).
pub open spec fn numeric_char(c: char) -> bool {
    if (c as int) < 128 {
        '0' <= c <= '9'
    } else {
        char_numeric(c)
    }
}

/// std's `char::is_numeric`: whether the character lies in one of Unicode's
/// general categories for numbers. The contract states the ASCII part of that
/// exactly (the digits, and no other ASCII character) and names the answer for
/// the characters beyond ASCII, whose categories come from Unicode's tables.
#[verifier::external_body]
pub(crate) fn is_numeric(c: char) -> (r: bool)
    ensures
        (c as int) < 128 ==> (r <==> '0' <= c <= '9'),
        (c as int) >= 128 ==> r == char_numeric(c),
{
    c.is_numeric()
}

/// The words joined with `sep` between each two of them.
pub open spec fn joined(words: Seq<Seq<char>>, sep: Seq<char>) -> Seq<char>
    decreases words.len(),
{
    if words.len() == 0 {
        seq![]
    } else if words.len() == 1 {
        words[0]
    } else {
        joined(words.drop_last(), sep) + sep + words.last()
    }
}

/// The words joined with `sep` between each two of them.
pub fn join_words(words: &[String], sep: &str) -> (r: String)
    ensures
        r@ == joined(words.deep_view(), sep@),
{
    let ghost ws = words.deep_view();
    let mut out = String::new();
    let mut i: usize = 0;
    assert(ws.take(0) =~= seq![]);
    while i < words.len()
        invariant
            ws == words.deep_view(),
            i <= words@.len(),
            out@ == joined(ws.take(i as int), sep@),
        decreases words@.len() - i,
    {
        assert(ws[i as int] == words@[i as int]@);
        assert(ws.take(i + 1).drop_last() =~= ws.take(i as int));
        if i != 0 {
            out.append(sep);
        }
        out.append(words[i].as_str());
        i = i + 1;
        if i == 1 {
            assert(joined(ws.take(1), sep@) == ws.take(1)[0]);
            assert(out@ =~= ws[0]);
        }
    }
    assert(ws.take(words@.len() as int) =~= ws);
    out
}

/// Appends one character to a `String` (std's `String::push`).
#[verifier::external_body]
pub(crate) fn push_char(s: &mut String, c: char)
    ensures
        final(s)@ == old(s)@.push(c),
{
    s.push(c)
}

/// The characters of `s`, in order.
pub fn chars_of(s: &str) -> (r: Vec<char>)
    ensures
        r@ == s@,
{
    let n = s.unicode_len();
    let mut v: Vec<char> = Vec::new();
    let mut i: usize = 0;
    while i < n
        invariant
            n == s@.len(),
            i <= n,
            v@ == s@.take(i as int),
        decreases n - i,
    {
        v.push(s.get_char(i));
        i = i + 1;
    }
    assert(s@.take(n as int) == s@);
    v
}

/// Appends the characters of `tail` to `s`.
pub fn push_chars(s: &mut String, tail: &[char])
    ensures
        final(s)@ == old(s)@ + tail@,
{
    let mut i: usize = 0;
    while i < tail.len()
        invariant
            i <= tail@.len(),
            s@ == old(s)@ + tail@.take(i as int),
        decreases tail@.len() - i,
    {
        push_char(s, tail[i]);
        i = i + 1;
        assert(tail@.take(i as int) == tail@.take(i - 1).push(tail@[i - 1]));
    }
    assert(tail@.take(tail@.len() as int) == tail@);
}

/// Whether two strings hold the same characters.
pub fn same_text(a: &str, b: &str) -> (r: bool)
    ensures
        r == (a@ == b@),
{
    let n = a.unicode_len();
    let m = b.unicode_len();
    if n != m {
        return false;
    }
    let mut i: usize = 0;
    while i < n
        invariant
            n == a@.len(),
            n == b@.len(),
            i <= n,
            a@.take(i as int) == b@.take(i as int),
        decreases n - i,
    {
        if a.get_char(i) != b.get_char(i) {
            assert(a@[i as int] != b@[i as int]);
            return false;
        }
        assert(a@.take(i + 1) == a@.take(i as int).push(a@[i as int]));
        assert(b@.take(i + 1) == b@.take(i as int).push(b@[i as int]));
        i = i + 1;
    }
    assert(a@.take(n as int) == a@);
    assert(b@.take(n as int) == b@);
    true
}

/// Whether `s` begins with `prefix`.
pub fn starts_with(s: &str, prefix: &str) -> (r: bool)
    ensures
        r == is_prefix(prefix@, s@),
{
    let n = s.unicode_len();
    let m = prefix.unicode_len();
    if m > n {
        return false;
    }
    let mut i: usize = 0;
    while i < m
        invariant
            n == s@.len(),
            m == prefix@.len(),
            m <= n,
            i <= m,
            s@.take(i as int) == prefix@.take(i as int),
        decreases m - i,
    {
        if s.get_char(i) != prefix.get_char(i) {
            assert(s@.take(m as int)[i as int] != prefix@[i as int]);
            return false;
        }
        assert(s@.take(i + 1) == s@.take(i as int).push(s@[i as int]));
        assert(prefix@.take(i + 1) == prefix@.take(i as int).push(prefix@[i as int]));
        i = i + 1;
    }
    assert(prefix@.take(m as int) == prefix@);
    true
}

} // verus!
