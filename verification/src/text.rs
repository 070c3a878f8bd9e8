//! Text helpers: ASCII case folding, the order of strings, and decimal
//! numbers.

use vstd::prelude::*;
use vstd::string::StringExecFns;

verus! {

/// The ASCII upper-case equivalent of `c`: `a` to `z` become `A` to `Z`,
/// every other character stays as it is.
pub open spec fn ascii_upper(c: char) -> char {
    if 'a' <= c && c <= 'z' {
        ((c as u32) - 32) as char
    } else {
        c
    }
}

/// `s` with every character mapped through [`ascii_upper`].
pub open spec fn upper(s: Seq<char>) -> Seq<char> {
    Seq::new(s.len(), |i: int| ascii_upper(s[i]))
}

/// Upper-casing twice is upper-casing once.
pub proof fn lemma_upper_idempotent(s: Seq<char>)
    ensures
        upper(upper(s)) == upper(s),
{
    assert(upper(upper(s)) =~= upper(s));
}

/// Upper-casing distributes over concatenation.
pub proof fn lemma_upper_concat(a: Seq<char>, b: Seq<char>)
    ensures
        upper(a + b) == upper(a) + upper(b),
{
    assert(upper(a + b) =~= upper(a) + upper(b));
}

/// Upper-casing commutes with dropping a prefix.
pub proof fn lemma_upper_skip(s: Seq<char>, n: int)
    requires
        0 <= n <= s.len(),
    ensures
        upper(s.skip(n)) == upper(s).skip(n),
{
    assert(upper(s.skip(n)) =~= upper(s).skip(n));
}

/// Wraps `str::to_ascii_uppercase`: the result has the characters of `s`, in
/// order, with the ASCII letters `a` to `z` replaced by `A` to `Z`.
#[verifier::external_body]
pub(crate) fn to_upper(s: &str) -> (r: String)
    ensures
        r@ == upper(s@),
{
    s.to_ascii_uppercase()
}

/// Wraps `str::starts_with` for a string pattern: whether `prefix` is a
/// prefix of `s`.
#[verifier::external_body]
pub(crate) fn has_prefix(s: &str, prefix: &str) -> (r: bool)
    ensures
        r == prefix@.is_prefix_of(s@),
{
    s.starts_with(prefix)
}

/// Wraps `str::ends_with` for a string pattern: whether `suffix` is a suffix
/// of `s`.
#[verifier::external_body]
pub(crate) fn has_suffix(s: &str, suffix: &str) -> (r: bool)
    ensures
        r == suffix@.is_suffix_of(s@),
{
    s.ends_with(suffix)
}

/// Whether `a` comes strictly before `b` in lexicographic order, characters
/// compared by code point.
pub open spec fn precedes(a: Seq<char>, b: Seq<char>) -> bool
    decreases a.len(),
{
    if b.len() == 0 {
        false
    } else if a.len() == 0 {
        true
    } else if a[0] != b[0] {
        a[0] < b[0]
    } else {
        precedes(a.drop_first(), b.drop_first())
    }
}

/// Of two different strings, one comes before the other.
pub proof fn lemma_precedes_total(a: Seq<char>, b: Seq<char>)
    requires
        a != b,
    ensures
        precedes(a, b) || precedes(b, a),
    decreases a.len(),
{
    if a.len() > 0 && b.len() > 0 && a[0] == b[0] {
        if a.drop_first() == b.drop_first() {
            assert(a =~= seq![a[0]] + a.drop_first());
            assert(b =~= seq![b[0]] + b.drop_first());
        }
        lemma_precedes_total(a.drop_first(), b.drop_first());
    } else if a.len() == 0 && b.len() == 0 {
        assert(a =~= b);
    } else if a.len() > 0 && b.len() > 0 {
        assert(precedes(a, b) == (a[0] < b[0]));
        assert(precedes(b, a) == (b[0] < a[0]));
    } else if a.len() == 0 {
        assert(precedes(a, b));
    } else {
        assert(precedes(b, a));
    }
}

/// What comes before something that comes before `c` comes before `c`.
pub proof fn lemma_precedes_transitive(a: Seq<char>, b: Seq<char>, c: Seq<char>)
    requires
        precedes(a, b),
        precedes(b, c),
    ensures
        precedes(a, c),
    decreases a.len(),
{
    if a.len() > 0 && a[0] == b[0] && b[0] == c[0] {
        lemma_precedes_transitive(a.drop_first(), b.drop_first(), c.drop_first());
    }
}

/// Nothing comes before itself.
pub proof fn lemma_precedes_irreflexive(a: Seq<char>)
    ensures
        !precedes(a, a),
    decreases a.len(),
{
    if a.len() > 0 {
        lemma_precedes_irreflexive(a.drop_first());
    }
}

/// Wraps the `<` of `str`, which orders strings lexicographically by their
/// bytes, and so by the code points of their characters.
#[verifier::external_body]
pub(crate) fn comes_before(a: &str, b: &str) -> (r: bool)
    ensures
        r == precedes(a@, b@),
{
    a < b
}

/// The decimal digit `d`, as text.
pub open spec fn digit(d: int) -> Seq<char> {
    if d == 0 {
        "0"@
    } else if d == 1 {
        "1"@
    } else if d == 2 {
        "2"@
    } else if d == 3 {
        "3"@
    } else if d == 4 {
        "4"@
    } else if d == 5 {
        "5"@
    } else if d == 6 {
        "6"@
    } else if d == 7 {
        "7"@
    } else if d == 8 {
        "8"@
    } else {
        "9"@
    }
}

/// The decimal digits of `n`, without leading zeros.
pub open spec fn natural(n: nat) -> Seq<char>
    decreases n,
{
    if n < 10 {
        digit(n as int)
    } else {
        natural(n / 10) + digit((n % 10) as int)
    }
}

/// The decimal form of `n`, with a minus sign if it is negative.
pub open spec fn decimal(n: int) -> Seq<char> {
    if n < 0 {
        "-"@ + natural((-n) as nat)
    } else {
        natural(n as nat)
    }
}

/// Returns the text of the decimal digit `d`.
fn digit_text(d: u64) -> (r: &'static str)
    requires
        d < 10,
    ensures
        r@ == digit(d as int),
{
    if d == 0 {
        "0"
    } else if d == 1 {
        "1"
    } else if d == 2 {
        "2"
    } else if d == 3 {
        "3"
    } else if d == 4 {
        "4"
    } else if d == 5 {
        "5"
    } else if d == 6 {
        "6"
    } else if d == 7 {
        "7"
    } else if d == 8 {
        "8"
    } else {
        "9"
    }
}

/// Appends the decimal digits of `n` to `out`.
pub fn push_natural(out: &mut String, n: u64)
    ensures
        final(out)@ == old(out)@ + natural(n as nat),
    decreases n,
{
    if n >= 10 {
        push_natural(out, n / 10);
    }
    out.append(digit_text(n % 10));
    assert(final(out)@ =~= old(out)@ + natural(n as nat));
}

/// Appends the decimal form of `n` to `out`.
pub fn push_decimal(out: &mut String, n: i64)
    ensures
        final(out)@ == old(out)@ + decimal(n as int),
{
    if n < 0 {
        let magnitude: u64 = ((-(n + 1)) as u64) + 1;
        out.append("-");
        push_natural(out, magnitude);
        assert(final(out)@ =~= old(out)@ + decimal(n as int));
    } else {
        push_natural(out, n as u64);
    }
}

} // verus!
