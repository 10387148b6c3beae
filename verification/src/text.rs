//! Text helpers shared by the parsers and formatters: string equality,
//! character access, string building, decimal integers.

use vstd::prelude::*;

verus! {

broadcast use vstd::string::axiom_spec_iter;

/// Whether two string slices hold the same characters, compared through
/// their UTF-8 bytes (the encoding of a character sequence is one-to-one).
pub fn str_eq(a: &str, b: &str) -> (r: bool)
    ensures
        r == (a@ == b@),
{
    let x = a.as_bytes();
    let y = b.as_bytes();
    proof {
        vstd::utf8::encode_utf8_decode_utf8(a@);
        vstd::utf8::encode_utf8_decode_utf8(b@);
    }
    if x.len() != y.len() {
        return false;
    }
    let mut i: usize = 0;
    while i < x.len()
        invariant
            x@ == vstd::utf8::encode_utf8(a@),
            y@ == vstd::utf8::encode_utf8(b@),
            x@.len() == y@.len(),
            i <= x@.len(),
            forall|j: int| 0 <= j < i ==> x@[j] == y@[j],
        decreases x@.len() - i,
    {
        if x[i] != y[i] {
            return false;
        }
        i = i + 1;
    }
    assert(x@ =~= y@);
    true
}

/// `<String as FromIterator<char>>::from_iter`: the string holding exactly
/// the given characters, in order.
#[verifier::external_body]
pub(crate) fn string_from_chars(chars: &[char]) -> (s: String)
    ensures
        s@ == chars@,
{
    chars.iter().collect()
}

/// The characters of `s`, in order.
pub fn chars_of(s: &str) -> (out: Vec<char>)
    ensures
        out@ == s@,
{
    let mut out: Vec<char> = Vec::new();
    for c in it: s.chars()
        invariant
            it.seq() == s@,
            out@ == it.seq().take(it.index() as int),
    {
        out.push(c);
    }
    out
}

/// `c` is an ASCII decimal digit.
pub open spec fn is_digit(c: char) -> bool {
    '0' <= c <= '9'
}

/// Every character of `s` is an ASCII decimal digit.
pub open spec fn all_digits(s: Seq<char>) -> bool {
    forall|i: int| 0 <= i < s.len() ==> is_digit(#[trigger] s[i])
}

/// The value of a string of decimal digits.
pub open spec fn digits_value(s: Seq<char>) -> int
    decreases s.len(),
{
    if s.len() == 0 {
        0
    } else {
        digits_value(s.drop_last()) * 10 + (s.last() as int - '0' as int)
    }
}

/// The sign of an integer literal and the digits after it: an optional
/// leading `-` (when `signed`) or `+`.
pub open spec fn sign_split(s: Seq<char>, signed: bool) -> (bool, Seq<char>) {
    if s.len() > 0 && s[0] == '-' && signed {
        (true, s.skip(1))
    } else if s.len() > 0 && s[0] == '+' {
        (false, s.skip(1))
    } else {
        (false, s)
    }
}

/// The value a decimal integer literal denotes, as Rust's integer
/// `FromStr` reads it: an optional sign (`-` only when `signed`), then one or
/// more ASCII digits; `None` for anything else.
pub open spec fn literal_value(s: Seq<char>, signed: bool) -> Option<int> {
    let (neg, body) = sign_split(s, signed);
    if body.len() > 0 && all_digits(body) {
        Some(
            if neg {
                -digits_value(body)
            } else {
                digits_value(body)
            },
        )
    } else {
        None
    }
}

/// `s.parse::<i32>()`: `Some` exactly when `s` is a decimal literal whose
/// value fits an `i32`.
pub open spec fn parse_i32_spec(s: Seq<char>) -> Option<i32> {
    match literal_value(s, true) {
        Some(v) => if i32::MIN <= v <= i32::MAX {
            Some(v as i32)
        } else {
            None
        },
        None => None,
    }
}

/// `s.parse::<u32>()`: `Some` exactly when `s` is an unsigned decimal
/// literal whose value fits a `u32`.
pub open spec fn parse_u32_spec(s: Seq<char>) -> Option<u32> {
    match literal_value(s, false) {
        Some(v) => if 0 <= v <= u32::MAX {
            Some(v as u32)
        } else {
            None
        },
        None => None,
    }
}

proof fn lemma_digits_value_nonneg(s: Seq<char>)
    requires
        all_digits(s),
    ensures
        digits_value(s) >= 0,
    decreases s.len(),
{
    if s.len() > 0 {
        lemma_digits_value_nonneg(s.drop_last());
    }
}

/// A digit string's value is at least that of any of its prefixes.
proof fn lemma_digits_value_prefix(s: Seq<char>, k: int)
    requires
        all_digits(s),
        0 <= k <= s.len(),
    ensures
        digits_value(s.take(k)) <= digits_value(s),
    decreases s.len(),
{
    if k < s.len() {
        assert(s.drop_last().take(k) =~= s.take(k));
        lemma_digits_value_prefix(s.drop_last(), k);
        lemma_digits_value_nonneg(s.drop_last());
        assert(digits_value(s.drop_last()) <= digits_value(s.drop_last()) * 10) by (nonlinear_arith)
            requires
                digits_value(s.drop_last()) >= 0,
        ;
    } else {
        assert(s.take(k) =~= s);
    }
}

/// The value of the digits `s[from..]`, or `None` when they are not all
/// digits, there are none, or the value exceeds `limit`.
fn digits_upto(s: &Vec<char>, from: usize, limit: u64) -> (r: Option<u64>)
    requires
        from <= s@.len(),
        limit <= u32::MAX,
    ensures
        match r {
            Some(v) => s@.skip(from as int).len() > 0 && all_digits(s@.skip(from as int)) && v == digits_value(
                s@.skip(from as int),
            ) && v <= limit,
            None => !(s@.skip(from as int).len() > 0 && all_digits(s@.skip(from as int)) && digits_value(
                s@.skip(from as int),
            ) <= limit),
        },
{
    let ghost body = s@.skip(from as int);
    if from == s.len() {
        return None;
    }
    let mut acc: u64 = 0;
    let mut i = from;
    while i < s.len()
        invariant
            from <= i <= s@.len(),
            body == s@.skip(from as int),
            limit <= u32::MAX,
            all_digits(body.take(i - from)),
            acc == digits_value(body.take(i - from)),
            acc <= limit,
        decreases s@.len() - i,
    {
        let c = s[i];
        if !('0' <= c && c <= '9') {
            assert(body[i - from] == c);
            return None;
        }
        let d = (c as u32 - '0' as u32) as u64;
        let next = acc * 10 + d;
        assert(body.take(i - from + 1).drop_last() =~= body.take(i - from));
        assert(next == digits_value(body.take(i - from + 1)));
        if next > limit {
            proof {
                if all_digits(body) {
                    lemma_digits_value_prefix(body, i - from + 1);
                }
            }
            return None;
        }
        acc = next;
        i = i + 1;
    }
    assert(body.take(i - from) =~= body);
    Some(acc)
}

/// `s.parse::<i32>()` on a character sequence, with Rust's rules for
/// integer literals.
pub fn parse_i32_chars(cs: &Vec<char>) -> (r: Option<i32>)
    ensures
        r == parse_i32_spec(cs@),
{
    let neg = cs.len() > 0 && cs[0] == '-';
    let from: usize = if cs.len() > 0 && (cs[0] == '-' || cs[0] == '+') { 1 } else { 0 };
    let limit: u64 = if neg { 0x8000_0000 } else { 0x7FFF_FFFF };
    let ghost (sneg, body) = sign_split(cs@, true);
    assert(body =~= cs@.skip(from as int));
    assert(sneg == neg);
    match digits_upto(cs, from, limit) {
        Some(v) => {
            if neg {
                Some((0 - (v as i64)) as i32)
            } else {
                Some(v as i32)
            }
        },
        None => None,
    }
}

/// `s.parse::<i32>()`, with Rust's rules for integer literals.
pub fn parse_i32(s: &str) -> (r: Option<i32>)
    ensures
        r == parse_i32_spec(s@),
{
    let cs = chars_of(s);
    parse_i32_chars(&cs)
}

/// `s.parse::<u32>()` on a character sequence, with Rust's rules for
/// integer literals.
pub fn parse_u32_chars(cs: &Vec<char>) -> (r: Option<u32>)
    ensures
        r == parse_u32_spec(cs@),
{
    let from: usize = if cs.len() > 0 && cs[0] == '+' { 1 } else { 0 };
    let ghost (sneg, body) = sign_split(cs@, false);
    assert(body =~= cs@.skip(from as int));
    match digits_upto(cs, from, 0xFFFF_FFFF) {
        Some(v) => Some(v as u32),
        None => None,
    }
}

/// `s.parse::<u32>()`, with Rust's rules for integer literals.
pub fn parse_u32(s: &str) -> (r: Option<u32>)
    ensures
        r == parse_u32_spec(s@),
{
    let cs = chars_of(s);
    parse_u32_chars(&cs)
}

/// The pieces of `s` between occurrences of `sep`, as `str::split` yields
/// them: `n` separators give `n + 1` pieces, empty ones included.
pub open spec fn split_seq<T>(s: Seq<T>, sep: T) -> Seq<Seq<T>>
    decreases s.len(),
{
    if s.len() == 0 {
        seq![Seq::empty()]
    } else {
        let prev = split_seq(s.drop_last(), sep);
        if s.last() == sep {
            prev.push(Seq::empty())
        } else {
            prev.update(prev.len() - 1, prev.last().push(s.last()))
        }
    }
}

proof fn lemma_split_nonempty<T>(s: Seq<T>, sep: T)
    ensures
        split_seq(s, sep).len() >= 1,
    decreases s.len(),
{
    if s.len() > 0 {
        lemma_split_nonempty(s.drop_last(), sep);
    }
}

/// `s.split(sep)`, each piece as its characters.
pub fn split_chars(s: &Vec<char>, sep: char) -> (out: Vec<Vec<char>>)
    ensures
        out@.len() == split_seq(s@, sep).len(),
        forall|k: int| 0 <= k < out@.len() ==> #[trigger] out@[k]@ == split_seq(s@, sep)[k],
{
    let mut out: Vec<Vec<char>> = Vec::new();
    let mut cur: Vec<char> = Vec::new();
    let mut i: usize = 0;
    while i < s.len()
        invariant
            i <= s@.len(),
            out@.len() + 1 == split_seq(s@.take(i as int), sep).len(),
            forall|k: int| 0 <= k < out@.len() ==> #[trigger] out@[k]@ == split_seq(s@.take(i as int), sep)[k],
            cur@ == split_seq(s@.take(i as int), sep).last(),
        decreases s@.len() - i,
    {
        let c = s[i];
        proof {
            lemma_split_nonempty(s@.take(i as int), sep);
            assert(s@.take(i + 1).drop_last() =~= s@.take(i as int));
        }
        if c == sep {
            let done = cur;
            out.push(done);
            cur = Vec::new();
        } else {
            cur.push(c);
        }
        i = i + 1;
    }
    assert(s@.take(i as int) =~= s@);
    out.push(cur);
    out
}

/// The ASCII digit for `d` (`0 <= d < 10`).
pub open spec fn digit_char(d: int) -> char {
    (d + '0' as int) as char
}

/// The decimal digits of `n`, most significant first, with no leading zeros.
pub open spec fn nat_digits(n: nat) -> Seq<char>
    decreases n,
{
    if n < 10 {
        seq![digit_char(n as int)]
    } else {
        nat_digits(n / 10).push(digit_char(n as int % 10))
    }
}

/// The decimal form of `v`, as `{}` formats an integer: a `-` before the
/// digits of a negative value.
pub open spec fn decimal(v: int) -> Seq<char> {
    if v < 0 {
        seq!['-'] + nat_digits((-v) as nat)
    } else {
        nat_digits(v as nat)
    }
}

/// Append the decimal digits of `n` to `out`.
pub fn push_digits(out: &mut Vec<char>, n: u64)
    ensures
        final(out)@ == old(out)@ + nat_digits(n as nat),
    decreases n,
{
    if n >= 10 {
        push_digits(out, n / 10);
    }
    let d = (n % 10) as u32;
    let c = char_from_digit(d);
    out.push(c);
    assert(nat_digits(n as nat) =~= if n < 10 {
        seq![digit_char(n as int)]
    } else {
        nat_digits((n / 10) as nat).push(digit_char(n as int % 10))
    });
}

/// The character of the decimal digit `d`.
pub fn char_from_digit(d: u32) -> (c: char)
    requires
        d < 10,
    ensures
        c == digit_char(d as int),
{
    if d == 0 { '0' } else if d == 1 { '1' } else if d == 2 { '2' } else if d == 3 { '3' } else if d == 4 { '4' }
    else if d == 5 { '5' } else if d == 6 { '6' } else if d == 7 { '7' } else if d == 8 { '8' } else { '9' }
}

/// Append the decimal form of `v` to `out`.
pub fn push_decimal(out: &mut Vec<char>, v: i64)
    ensures
        final(out)@ == old(out)@ + decimal(v as int),
{
    if v < 0 {
        out.push('-');
        let m = (0 - (v as i128)) as u64;
        push_digits(out, m);
        assert(out@ =~= old(out)@ + decimal(v as int));
    } else {
        push_digits(out, v as u64);
    }
}

/// Append the characters of `s` to `out`.
pub fn push_str(out: &mut Vec<char>, s: &str)
    ensures
        final(out)@ == old(out)@ + s@,
{
    let cs = chars_of(s);
    let mut i: usize = 0;
    while i < cs.len()
        invariant
            i <= cs@.len(),
            cs@ == s@,
            out@ == old(out)@ + cs@.take(i as int),
        decreases cs@.len() - i,
    {
        out.push(cs[i]);
        assert(out@ =~= old(out)@ + cs@.take(i + 1));
        i = i + 1;
    }
    assert(cs@.take(i as int) =~= cs@);
}

/// Printable ASCII other than `"` and `\\`: the characters that `{:?}`
/// writes unchanged inside a quoted string.
pub open spec fn debug_plain(s: Seq<char>) -> bool {
    forall|i: int| 0 <= i < s.len() ==> ' ' <= #[trigger] s[i] <= '~' && s[i] != '"' && s[i] != '\\'
}

/// What `format!("{:?}", s)` gives for a string slice with characters `s`.
pub uninterp spec fn debug_quoted(s: Seq<char>) -> Seq<char>;

/// `format!("{:?}", s)`: the quoted, escaped form of a string slice. The
/// contract names the result ([`debug_quoted`]) and states what std's
/// documentation of `Debug` for `str` plainly gives: a string of printable
/// ASCII without quotes or backslashes is written between double quotes
/// unchanged. The escapes of other characters are left to the name.
#[verifier::external_body]
pub(crate) fn debug_string(s: &str) -> (r: String)
    ensures
        r@ == debug_quoted(s@),
        debug_plain(s@) ==> r@ == seq!['"'] + s@ + seq!['"'],
{
    format!("{s:?}")
}

/// `s` starts with `p`.
pub open spec fn has_prefix(s: Seq<char>, p: Seq<char>) -> bool {
    p.len() <= s.len() && s.take(p.len() as int) == p
}

/// Whether the characters `s` start with the string `p`.
pub fn starts_with(s: &Vec<char>, p: &str) -> (r: bool)
    ensures
        r == has_prefix(s@, p@),
{
    let pc = chars_of(p);
    if pc.len() > s.len() {
        return false;
    }
    let mut i: usize = 0;
    while i < pc.len()
        invariant
            i <= pc@.len() <= s@.len(),
            pc@ == p@,
            s@.take(i as int) == pc@.take(i as int),
        decreases pc@.len() - i,
    {
        if s[i] != pc[i] {
            assert(s@.take(pc@.len() as int)[i as int] != pc@[i as int]);
            return false;
        }
        assert(s@.take(i + 1) =~= pc@.take(i + 1));
        i = i + 1;
    }
    assert(pc@.take(i as int) =~= pc@);
    true
}

/// The characters of `s` from index `k` on.
pub fn skip_chars(s: &Vec<char>, k: usize) -> (r: Vec<char>)
    requires
        k <= s@.len(),
    ensures
        r@ == s@.skip(k as int),
{
    let mut r: Vec<char> = Vec::new();
    let mut i = k;
    while i < s.len()
        invariant
            k <= i <= s@.len(),
            r@ == s@.subrange(k as int, i as int),
        decreases s@.len() - i,
    {
        r.push(s[i]);
        assert(r@ =~= s@.subrange(k as int, i + 1));
        i = i + 1;
    }
    assert(r@ =~= s@.skip(k as int));
    r
}

/// Unicode white space, as `char::is_whitespace` defines it.
pub open spec fn is_space(c: char) -> bool {
    ||| '\t' <= c <= '\r'
    ||| c == ' '
    ||| c == '\u{85}'
    ||| c == '\u{a0}'
    ||| c == '\u{1680}'
    ||| '\u{2000}' <= c <= '\u{200a}'
    ||| c == '\u{2028}'
    ||| c == '\u{2029}'
    ||| c == '\u{202f}'
    ||| c == '\u{205f}'
    ||| c == '\u{3000}'
}

/// Whether `c` is Unicode white space.
pub fn space_char(c: char) -> (r: bool)
    ensures
        r == is_space(c),
{
    ('\t' <= c && c <= '\r') || c == ' ' || c == '\u{85}' || c == '\u{a0}' || c == '\u{1680}' || ('\u{2000}'
        <= c && c <= '\u{200a}') || c == '\u{2028}' || c == '\u{2029}' || c == '\u{202f}' || c == '\u{205f}'
        || c == '\u{3000}'
}

/// Number of leading white-space characters of `s`.
pub open spec fn leading_space(s: Seq<char>, i: int) -> int
    decreases s.len() - i,
{
    if i < 0 || i >= s.len() || !is_space(s[i]) {
        i
    } else {
        leading_space(s, i + 1)
    }
}

/// Index just past the last non-space character of `s[.. j]`, not going
/// below `lo`.
pub open spec fn trailing_end(s: Seq<char>, lo: int, j: int) -> int
    decreases j - lo,
{
    if j <= lo || !is_space(s[j - 1]) {
        j
    } else {
        trailing_end(s, lo, j - 1)
    }
}

/// `s` without leading and trailing white space, as `str::trim` gives it.
pub open spec fn trimmed(s: Seq<char>) -> Seq<char> {
    let a = leading_space(s, 0);
    let b = trailing_end(s, a, s.len() as int);
    s.subrange(a, b)
}

proof fn lemma_leading_space_range(s: Seq<char>, i: int)
    requires
        0 <= i <= s.len(),
    ensures
        i <= leading_space(s, i) <= s.len(),
    decreases s.len() - i,
{
    if i < s.len() && is_space(s[i]) {
        lemma_leading_space_range(s, i + 1);
    }
}

proof fn lemma_trailing_end_range(s: Seq<char>, lo: int, j: int)
    requires
        lo <= j,
    ensures
        lo <= trailing_end(s, lo, j) <= j,
    decreases j - lo,
{
    if j > lo && is_space(s[j - 1]) {
        lemma_trailing_end_range(s, lo, j - 1);
    }
}

/// `s.trim()` on characters: the characters without leading and trailing
/// white space.
pub fn trim_chars(s: &Vec<char>) -> (r: Vec<char>)
    ensures
        r@ == trimmed(s@),
{
    proof {
        lemma_leading_space_range(s@, 0);
    }
    let mut a: usize = 0;
    while a < s.len() && space_char(s[a])
        invariant
            a <= s@.len(),
            leading_space(s@, 0) == leading_space(s@, a as int),
        decreases s@.len() - a,
    {
        a = a + 1;
    }
    proof {
        lemma_trailing_end_range(s@, a as int, s@.len() as int);
    }
    let mut b: usize = s.len();
    while b > a && space_char(s[b - 1])
        invariant
            a <= b <= s@.len(),
            a == leading_space(s@, 0),
            trailing_end(s@, a as int, s@.len() as int) == trailing_end(s@, a as int, b as int),
        decreases b,
    {
        b = b - 1;
    }
    let mut r: Vec<char> = Vec::new();
    let mut i = a;
    while i < b
        invariant
            a <= i <= b <= s@.len(),
            r@ == s@.subrange(a as int, i as int),
        decreases b - i,
    {
        r.push(s[i]);
        assert(r@ =~= s@.subrange(a as int, i + 1));
        i = i + 1;
    }
    r
}

/// `s.split(sep)` on bytes, each piece as its bytes.
pub fn split_bytes(s: &[u8], sep: u8) -> (out: Vec<Vec<u8>>)
    ensures
        out@.len() == split_seq(s@, sep).len(),
        forall|k: int| 0 <= k < out@.len() ==> #[trigger] out@[k]@ == split_seq(s@, sep)[k],
{
    let mut out: Vec<Vec<u8>> = Vec::new();
    let mut cur: Vec<u8> = Vec::new();
    let mut i: usize = 0;
    while i < s.len()
        invariant
            i <= s@.len(),
            out@.len() + 1 == split_seq(s@.take(i as int), sep).len(),
            forall|k: int| 0 <= k < out@.len() ==> #[trigger] out@[k]@ == split_seq(s@.take(i as int), sep)[k],
            cur@ == split_seq(s@.take(i as int), sep).last(),
        decreases s@.len() - i,
    {
        let c = s[i];
        proof {
            lemma_split_nonempty(s@.take(i as int), sep);
            assert(s@.take(i + 1).drop_last() =~= s@.take(i as int));
        }
        if c == sep {
            let done = cur;
            out.push(done);
            cur = Vec::new();
        } else {
            cur.push(c);
        }
        i = i + 1;
    }
    assert(s@.take(i as int) =~= s@);
    out.push(cur);
    out
}

/// Index of the first `c` in `s`, if any.
pub open spec fn index_of_char(s: Seq<char>, c: char, i: int) -> Option<int>
    decreases s.len() - i,
{
    if i < 0 || i >= s.len() {
        None
    } else if s[i] == c {
        Some(i)
    } else {
        index_of_char(s, c, i + 1)
    }
}

/// Index of the first `c` in `s`, if any.
pub fn find_char(s: &Vec<char>, c: char) -> (r: Option<usize>)
    ensures
        match r {
            Some(i) => index_of_char(s@, c, 0) == Some(i as int) && i < s@.len(),
            None => index_of_char(s@, c, 0) is None,
        },
{
    let mut i: usize = 0;
    while i < s.len()
        invariant
            i <= s@.len(),
            index_of_char(s@, c, 0) == index_of_char(s@, c, i as int),
        decreases s@.len() - i,
    {
        if s[i] == c {
            return Some(i);
        }
        i = i + 1;
    }
    None
}

/// The characters `s[a .. b]`.
pub fn sub_chars(s: &Vec<char>, a: usize, b: usize) -> (r: Vec<char>)
    requires
        a <= b <= s@.len(),
    ensures
        r@ == s@.subrange(a as int, b as int),
{
    let mut r: Vec<char> = Vec::new();
    let mut i = a;
    while i < b
        invariant
            a <= i <= b <= s@.len(),
            r@ == s@.subrange(a as int, i as int),
        decreases b - i,
    {
        r.push(s[i]);
        assert(r@ =~= s@.subrange(a as int, i + 1));
        i = i + 1;
    }
    r
}

/// Whether two character sequences are equal.
pub fn chars_eq(a: &Vec<char>, b: &Vec<char>) -> (r: bool)
    ensures
        r == (a@ == b@),
{
    if a.len() != b.len() {
        return false;
    }
    let mut i: usize = 0;
    while i < a.len()
        invariant
            i <= a@.len() == b@.len(),
            a@.take(i as int) == b@.take(i as int),
        decreases a@.len() - i,
    {
        if a[i] != b[i] {
            return false;
        }
        assert(a@.take(i + 1) =~= b@.take(i + 1));
        i = i + 1;
    }
    assert(a@ =~= a@.take(i as int));
    assert(b@ =~= b@.take(i as int));
    true
}

/// Append the characters `s` to `out`.
pub fn push_chars(out: &mut Vec<char>, s: &Vec<char>)
    ensures
        final(out)@ == old(out)@ + s@,
{
    let mut i: usize = 0;
    while i < s.len()
        invariant
            i <= s@.len(),
            out@ == old(out)@ + s@.take(i as int),
        decreases s@.len() - i,
    {
        out.push(s[i]);
        assert(out@ =~= old(out)@ + s@.take(i + 1));
        i = i + 1;
    }
    assert(s@.take(i as int) =~= s@);
}

} // verus!
