//! Character-level string utilities: decimal rendering, number parsing,
//! lexicographic comparison, and the whitespace test used to skip blank
//! input lines.

use vstd::prelude::*;

verus! {

/// The decimal digit character for `d` (meaningful for `0 <= d <= 9`).
pub open spec fn dec_digit(d: int) -> char {
    if d == 0 {
        '0'
    } else if d == 1 {
        '1'
    } else if d == 2 {
        '2'
    } else if d == 3 {
        '3'
    } else if d == 4 {
        '4'
    } else if d == 5 {
        '5'
    } else if d == 6 {
        '6'
    } else if d == 7 {
        '7'
    } else if d == 8 {
        '8'
    } else {
        '9'
    }
}

/// The decimal rendering of a non-negative integer, without leading zeros
/// (except for the single digit of zero itself).
pub open spec fn dec_str(n: int) -> Seq<char>
    decreases n,
{
    if n < 10 {
        seq![dec_digit(n)]
    } else {
        dec_str(n / 10).push(dec_digit(n % 10))
    }
}

/// One decimal digit as a string.
fn digit_str(d: u64) -> (s: &'static str)
    requires
        d < 10,
    ensures
        s@ == seq![dec_digit(d as int)],
{
    proof {
        reveal_strlit("0");
        reveal_strlit("1");
        reveal_strlit("2");
        reveal_strlit("3");
        reveal_strlit("4");
        reveal_strlit("5");
        reveal_strlit("6");
        reveal_strlit("7");
        reveal_strlit("8");
        reveal_strlit("9");
    }
    match d {
        0 => "0",
        1 => "1",
        2 => "2",
        3 => "3",
        4 => "4",
        5 => "5",
        6 => "6",
        7 => "7",
        8 => "8",
        _ => "9",
    }
}

/// Renders `n` in decimal.
pub fn u64_to_dec(n: u64) -> (s: String)
    ensures
        s@ == dec_str(n as int),
    decreases n,
{
    if n < 10 {
        String::from_str(digit_str(n))
    } else {
        let prefix = u64_to_dec(n / 10);
        prefix.concat(digit_str(n % 10))
    }
}

/// Renders `n` in decimal.
pub fn u32_to_dec(n: u32) -> (s: String)
    ensures
        s@ == dec_str(n as int),
{
    u64_to_dec(n as u64)
}

/// The decimal rendering of an integer, with a leading minus sign when
/// negative.
pub open spec fn int_dec_str(n: int) -> Seq<char> {
    if n < 0 {
        seq!['-'] + dec_str(-n)
    } else {
        dec_str(n)
    }
}

/// Renders `x` in decimal, with a minus sign when negative.
pub fn i64_to_dec(x: i64) -> (s: String)
    ensures
        s@ == int_dec_str(x as int),
{
    if x >= 0 {
        u64_to_dec(x as u64)
    } else {
        let m: u64 = ((-(x + 1)) as u64) + 1;
        proof {
            assert(m as int == -(x as int));
            reveal_strlit("-");
        }
        let s = String::from_str("-");
        s.concat(u64_to_dec(m).as_str())
    }
}

/// Whether `c` is a decimal digit.
pub open spec fn is_dec_digit(c: char) -> bool {
    '0' <= c && c <= '9'
}

/// The numeric value of a digit character.
pub open spec fn digit_of(c: char) -> int {
    c as int - '0' as int
}

/// The value of a digit string read as a decimal number.
pub open spec fn digits_val(s: Seq<char>) -> int
    decreases s.len(),
{
    if s.len() == 0 {
        0
    } else {
        digits_val(s.drop_last()) * 10 + digit_of(s.last())
    }
}

/// Whether every character of `s` is a decimal digit.
pub open spec fn all_dec_digits(s: Seq<char>) -> bool {
    forall|i: int| 0 <= i < s.len() ==> is_dec_digit(s[i])
}

/// What `str::parse::<u32>` accepts, with every rejected input (including
/// overflow) mapped to zero: an optional leading `+`, then at least one
/// digit, valuing at most `u32::MAX`.
pub open spec fn parse_u32_spec(s: Seq<char>) -> int {
    let body = if s.len() > 0 && s[0] == '+' {
        s.skip(1)
    } else {
        s
    };
    if body.len() > 0 && all_dec_digits(body) && digits_val(body) <= u32::MAX {
        digits_val(body)
    } else {
        0
    }
}

proof fn lemma_digits_val_take_step(s: Seq<char>, i: int)
    requires
        0 <= i < s.len(),
    ensures
        digits_val(s.take(i + 1)) == digits_val(s.take(i)) * 10 + digit_of(s[i]),
{
    assert(s.take(i + 1).drop_last() =~= s.take(i));
    assert(s.take(i + 1).last() == s[i]);
}

proof fn lemma_digits_val_nonneg(s: Seq<char>)
    requires
        all_dec_digits(s),
    ensures
        digits_val(s) >= 0,
    decreases s.len(),
{
    if s.len() > 0 {
        assert(all_dec_digits(s.drop_last()));
        lemma_digits_val_nonneg(s.drop_last());
        assert(is_dec_digit(s.last()));
    }
}

proof fn lemma_digits_val_grows(s: Seq<char>, i: int, j: int)
    requires
        all_dec_digits(s),
        0 <= i <= j <= s.len(),
    ensures
        digits_val(s.take(i)) <= digits_val(s.take(j)),
    decreases j - i,
{
    if i < j {
        lemma_digits_val_grows(s, i, j - 1);
        lemma_digits_val_take_step(s, j - 1);
        assert(all_dec_digits(s.take(j - 1)));
        lemma_digits_val_nonneg(s.take(j - 1));
        assert(is_dec_digit(s[j - 1]));
    }
}

/// Parses `s` as a decimal `u32`, returning zero for any input that is not
/// a well-formed number in range.
pub fn parse_u32(s: &str) -> (r: u32)
    ensures
        r as int == parse_u32_spec(s@),
{
    let n = s.unicode_len();
    let start: usize = if n > 0 && s.get_char(0) == '+' {
        1
    } else {
        0
    };
    let ghost body: Seq<char> = if s@.len() > 0 && s@[0] == '+' {
        s@.skip(1)
    } else {
        s@
    };
    proof {
        assert(body =~= s@.subrange(start as int, n as int));
    }
    if start == n {
        return 0;
    }
    let mut val: u32 = 0;
    let mut i: usize = start;
    while i < n
        invariant
            start <= i <= n == s@.len(),
            body == (if s@.len() > 0 && s@[0] == '+' {
                s@.skip(1)
            } else {
                s@
            }),
            body =~= s@.subrange(start as int, n as int),
            all_dec_digits(body.take(i - start)),
            val as int == digits_val(body.take(i - start)),
        decreases n - i,
    {
        let c = s.get_char(i);
        proof {
            assert(body[i - start] == c);
        }
        if !('0' <= c && c <= '9') {
            proof {
                assert(!is_dec_digit(body[i - start]));
                assert(!all_dec_digits(body));
                assert(parse_u32_spec(s@) == 0);
            }
            return 0;
        }
        let d: u32 = c as u32 - '0' as u32;
        let overflowed: bool = match val.checked_mul(10) {
            Some(v10) => match v10.checked_add(d) {
                Some(v) => {
                    val = v;
                    false
                },
                None => true,
            },
            None => true,
        };
        proof {
            lemma_digits_val_take_step(body, i - start);
            assert(digit_of(body[i - start]) == d as int);
        }
        if overflowed {
            proof {
                assert(digits_val(body.take(i - start + 1)) > u32::MAX);
                if all_dec_digits(body) {
                    lemma_digits_val_grows(body, i - start + 1, body.len() as int);
                    assert(body.take(body.len() as int) =~= body);
                    assert(digits_val(body) > u32::MAX);
                }
                assert(parse_u32_spec(s@) == 0);
            }
            return 0;
        }
        i = i + 1;
    }
    proof {
        assert(body.take(n - start) =~= body);
    }
    val
}

/// Whether two string slices hold the same characters.
pub fn str_eq(a: &str, b: &str) -> (r: bool)
    ensures
        r == (a@ == b@),
{
    let na = a.unicode_len();
    let nb = b.unicode_len();
    if na != nb {
        return false;
    }
    let mut i: usize = 0;
    while i < na
        invariant
            0 <= i <= na,
            na == a@.len() == b@.len(),
            forall|j: int| 0 <= j < i ==> a@[j] == b@[j],
        decreases na - i,
    {
        if a.get_char(i) != b.get_char(i) {
            return false;
        }
        i = i + 1;
    }
    proof {
        assert(a@ =~= b@);
    }
    true
}

/// Whether `p@` is a prefix of `s@`.
pub fn str_starts_with(s: &str, p: &str) -> (r: bool)
    ensures
        r == (s@.len() >= p@.len() && s@.take(p@.len() as int) == p@),
{
    let ns = s.unicode_len();
    let np = p.unicode_len();
    if ns < np {
        return false;
    }
    let mut i: usize = 0;
    while i < np
        invariant
            0 <= i <= np,
            np == p@.len(),
            ns == s@.len(),
            np <= ns,
            forall|j: int| 0 <= j < i ==> s@[j] == p@[j],
        decreases np - i,
    {
        if s.get_char(i) != p.get_char(i) {
            proof {
                assert(s@.take(p@.len() as int)[i as int] != p@[i as int]);
            }
            return false;
        }
        i = i + 1;
    }
    proof {
        assert(s@.take(p@.len() as int) =~= p@);
    }
    true
}

/// The characters of `s`, in order.
pub fn str_chars(s: &str) -> (v: Vec<char>)
    ensures
        v@ == s@,
{
    let n = s.unicode_len();
    let mut v: Vec<char> = Vec::new();
    let mut i: usize = 0;
    while i < n
        invariant
            0 <= i <= n == s@.len(),
            v@ =~= s@.take(i as int),
        decreases n - i,
    {
        v.push(s.get_char(i));
        i = i + 1;
    }
    proof {
        assert(s@.take(n as int) =~= s@);
    }
    v
}

/// Relies on `String`'s `FromIterator<&char>` implementation: collecting
/// the characters of a vector yields the string of exactly those
/// characters, in order.
#[verifier::external_body]
pub fn chars_to_string(v: &Vec<char>) -> (s: String)
    ensures
        s@ == v@,
{
    v.iter().collect()
}

/// The Unicode `White_Space` characters, as `char::is_whitespace` decides
/// them.
pub open spec fn is_space(c: char) -> bool {
    c == ' ' || c == '\t' || c == '\n' || c == '\r' || c == '\u{000B}' || c == '\u{000C}' || c
        == '\u{0085}' || c == '\u{00A0}' || c == '\u{1680}' || ('\u{2000}' <= c && c
        <= '\u{200A}') || c == '\u{2028}' || c == '\u{2029}' || c == '\u{202F}' || c == '\u{205F}'
        || c == '\u{3000}'
}

/// Whether every character of `s` is whitespace (true for the empty
/// string): such lines are skipped by the loader.
pub open spec fn spec_blank(s: Seq<char>) -> bool {
    forall|i: int| 0 <= i < s.len() ==> is_space(s[i])
}

fn is_space_char(c: char) -> (r: bool)
    ensures
        r == is_space(c),
{
    c == ' ' || c == '\t' || c == '\n' || c == '\r' || c == '\u{000B}' || c == '\u{000C}' || c
        == '\u{0085}' || c == '\u{00A0}' || c == '\u{1680}' || ('\u{2000}' <= c && c
        <= '\u{200A}') || c == '\u{2028}' || c == '\u{2029}' || c == '\u{202F}' || c == '\u{205F}'
        || c == '\u{3000}'
}

/// Whether `s` consists only of whitespace.
pub fn is_blank(s: &str) -> (r: bool)
    ensures
        r == spec_blank(s@),
{
    let n = s.unicode_len();
    let mut i: usize = 0;
    while i < n
        invariant
            0 <= i <= n == s@.len(),
            forall|j: int| 0 <= j < i ==> is_space(s@[j]),
        decreases n - i,
    {
        if !is_space_char(s.get_char(i)) {
            return false;
        }
        i = i + 1;
    }
    true
}

/// `s` with every occurrence of the quote character `q` doubled, leaving
/// everything else in place.
pub open spec fn doubled(s: Seq<char>, q: char) -> Seq<char>
    decreases s.len(),
{
    if s.len() == 0 {
        Seq::empty()
    } else if s.last() == q {
        doubled(s.drop_last(), q) + seq![q, q]
    } else {
        doubled(s.drop_last(), q).push(s.last())
    }
}

/// `s` with every single quote doubled, the escaping SQLite expects inside
/// a quoted string literal.
pub fn escape_single_quotes(s: &str) -> (r: String)
    ensures
        r@ == doubled(s@, '\''),
{
    let n = s.unicode_len();
    let mut out: Vec<char> = Vec::new();
    let mut i: usize = 0;
    while i < n
        invariant
            0 <= i <= n == s@.len(),
            out@ =~= doubled(s@.take(i as int), '\''),
        decreases n - i,
    {
        let c = s.get_char(i);
        out.push(c);
        if c == '\'' {
            out.push('\'');
        }
        proof {
            assert(s@.take(i + 1).drop_last() =~= s@.take(i as int));
            assert(s@.take(i + 1).last() == s@[i as int]);
        }
        i = i + 1;
    }
    proof {
        assert(s@.take(n as int) =~= s@);
    }
    chars_to_string(&out)
}

/// The full-text phrase escape: every single and double quote in `s`
/// doubled, in one pass.
pub open spec fn fts_escaped(s: Seq<char>) -> Seq<char>
    decreases s.len(),
{
    if s.len() == 0 {
        Seq::empty()
    } else if s.last() == '\'' || s.last() == '"' {
        fts_escaped(s.drop_last()) + seq![s.last(), s.last()]
    } else {
        fts_escaped(s.drop_last()).push(s.last())
    }
}

/// Doubles every single and double quote of `s`, keeping a full-text
/// phrase literal when it is wrapped in double quotes inside a
/// single-quoted SQL string.
pub fn escape_fts_phrase(s: &str) -> (r: String)
    ensures
        r@ == fts_escaped(s@),
{
    let n = s.unicode_len();
    let mut out: Vec<char> = Vec::new();
    let mut i: usize = 0;
    while i < n
        invariant
            0 <= i <= n == s@.len(),
            out@ =~= fts_escaped(s@.take(i as int)),
        decreases n - i,
    {
        let c = s.get_char(i);
        out.push(c);
        if c == '\'' || c == '"' {
            out.push(c);
        }
        proof {
            assert(s@.take(i + 1).drop_last() =~= s@.take(i as int));
            assert(s@.take(i + 1).last() == s@[i as int]);
        }
        i = i + 1;
    }
    proof {
        assert(s@.take(n as int) =~= s@);
    }
    chars_to_string(&out)
}

} // verus!

