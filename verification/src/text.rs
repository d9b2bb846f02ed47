//! Decimal rendering of integers, for the texts that errors carry.

use vstd::prelude::*;
use vstd::string::StringExecFns;

verus! {

/// The character of one decimal digit.
pub open spec fn digit_char(d: int) -> char
    recommends
        0 <= d < 10,
{
    if d == 0 {
        '0'
    } else if d == 1 {
        '1'
    } else if d == 2 {
        '2'
    } else if d == 3 {
        '3'
    } else if d == 4 {
        '4'
    } else if d == 5 {
        '5'
    } else if d == 6 {
        '6'
    } else if d == 7 {
        '7'
    } else if d == 8 {
        '8'
    } else {
        '9'
    }
}

/// The decimal digits of `n`, most significant first, without leading
/// zeros.
pub open spec fn decimal(n: nat) -> Seq<char>
    decreases n,
{
    if n < 10 {
        seq![digit_char(n as int)]
    } else {
        decimal(n / 10).push(digit_char((n % 10) as int))
    }
}

/// The decimal text of an integer, with a minus sign when it is negative.
pub open spec fn signed_decimal(v: int) -> Seq<char> {
    if v < 0 {
        seq!['-'] + decimal((-v) as nat)
    } else {
        decimal(v as nat)
    }
}

/// The text of one decimal digit.
fn digit_str(d: u64) -> (out: &'static str)
    requires
        d < 10,
    ensures
        out@ == seq![digit_char(d as int)],
{
    proof {
        reveal_strlit("0");
        reveal_strlit("1");
        reveal_strlit("2");
        reveal_strlit("3");
        reveal_strlit("4");
        reveal_strlit("5");
        reveal_strlit("6");
        reveal_strlit("7");
        reveal_strlit("8");
        reveal_strlit("9");
    }
    let out = if d == 0 {
        "0"
    } else if d == 1 {
        "1"
    } else if d == 2 {
        "2"
    } else if d == 3 {
        "3"
    } else if d == 4 {
        "4"
    } else if d == 5 {
        "5"
    } else if d == 6 {
        "6"
    } else if d == 7 {
        "7"
    } else if d == 8 {
        "8"
    } else {
        "9"
    };
    assert(out@ =~= seq![digit_char(d as int)]);
    out
}

/// Appends the decimal digits of `n` to `out`.
pub fn push_decimal(out: &mut String, n: u64)
    ensures
        final(out)@ == old(out)@ + decimal(n as nat),
    decreases n,
{
    if n >= 10 {
        push_decimal(out, n / 10);
    }
    out.append(digit_str(n % 10));
    assert(out@ =~= old(out)@ + decimal(n as nat));
}

/// Appends the decimal digits of a wide `n` to `out`.
pub fn push_wide_decimal(out: &mut String, n: u128)
    ensures
        final(out)@ == old(out)@ + decimal(n as nat),
    decreases n,
{
    if n >= 10 {
        push_wide_decimal(out, n / 10);
    }
    out.append(digit_str((n % 10) as u64));
    assert(out@ =~= old(out)@ + decimal(n as nat));
}

/// Appends the decimal text of `v` to `out`.
pub fn push_signed_decimal(out: &mut String, v: i64)
    ensures
        final(out)@ == old(out)@ + signed_decimal(v as int),
{
    if v < 0 {
        proof {
            reveal_strlit("-");
        }
        out.append("-");
        let magnitude: u64 = (-(v as i128)) as u64;
        push_decimal(out, magnitude);
        assert(out@ =~= old(out)@ + signed_decimal(v as int));
    } else {
        push_decimal(out, v as u64);
    }
}

/// Appends `text` to `out`.
pub fn push_text(out: &mut String, text: &str)
    ensures
        final(out)@ == old(out)@ + text@,
{
    out.append(text);
}


/// Whether `c` is white space: a character with the Unicode property
/// `White_Space`.
pub open spec fn is_white_space(c: char) -> bool {
    let code = c as u32;
    ||| 0x09 <= code <= 0x0D
    ||| code == 0x20
    ||| code == 0x85
    ||| code == 0xA0
    ||| code == 0x1680
    ||| 0x2000 <= code <= 0x200A
    ||| code == 0x2028
    ||| code == 0x2029
    ||| code == 0x202F
    ||| code == 0x205F
    ||| code == 0x3000
}

/// Number of white-space characters at the front of `s`.
pub open spec fn leading_white_space(s: Seq<char>) -> nat
    decreases s.len(),
{
    if s.len() > 0 && is_white_space(s[0]) {
        1 + leading_white_space(s.drop_first())
    } else {
        0
    }
}

/// Number of white-space characters at the back of `s`.
pub open spec fn trailing_white_space(s: Seq<char>) -> nat
    decreases s.len(),
{
    if s.len() > 0 && is_white_space(s.last()) {
        1 + trailing_white_space(s.drop_last())
    } else {
        0
    }
}

/// `s` without the white space at its front.
pub open spec fn trim_start_spec(s: Seq<char>) -> Seq<char> {
    s.subrange(leading_white_space(s) as int, s.len() as int)
}

/// `s` without the white space at its front and at its back.
pub open spec fn trim_spec(s: Seq<char>) -> Seq<char> {
    let rest = trim_start_spec(s);
    rest.subrange(0, rest.len() - trailing_white_space(rest))
}

/// The leading white space of `s` ends before its first character that is
/// none: `n` white-space characters followed by another character or by
/// the end are exactly the leading white space.
pub proof fn lemma_leading_white_space(s: Seq<char>, n: int)
    requires
        0 <= n <= s.len(),
        forall|i: int| 0 <= i < n ==> is_white_space(#[trigger] s[i]),
        n < s.len() ==> !is_white_space(s[n]),
    ensures
        leading_white_space(s) == n,
    decreases n,
{
    if n > 0 {
        let rest = s.drop_first();
        assert forall|i: int| 0 <= i < n - 1 implies is_white_space(#[trigger] rest[i]) by {
            assert(rest[i] == s[i + 1]);
        }
        if n < s.len() {
            assert(rest[n - 1] == s[n]);
        }
        lemma_leading_white_space(rest, n - 1);
    }
}

/// The trailing white space of `s` begins after its last character that is
/// none.
pub proof fn lemma_trailing_white_space(s: Seq<char>, n: int)
    requires
        0 <= n <= s.len(),
        forall|i: int| s.len() - n <= i < s.len() ==> is_white_space(#[trigger] s[i]),
        n < s.len() ==> !is_white_space(s[s.len() - n - 1]),
    ensures
        trailing_white_space(s) == n,
    decreases n,
{
    if n > 0 {
        let rest = s.drop_last();
        assert forall|i: int| rest.len() - (n - 1) <= i < rest.len() implies is_white_space(
            #[trigger] rest[i],
        ) by {
            assert(rest[i] == s[i]);
        }
        if n < s.len() {
            assert(rest[rest.len() - (n - 1) - 1] == s[s.len() - n - 1]);
        }
        lemma_trailing_white_space(rest, n - 1);
    }
}

/// Tells whether `c` is white space.
pub fn is_white_space_char(c: char) -> (out: bool)
    ensures
        out == is_white_space(c),
{
    let code = c as u32;
    (0x09 <= code && code <= 0x0D) || code == 0x20 || code == 0x85 || code == 0xA0 || code
        == 0x1680 || (0x2000 <= code && code <= 0x200A) || code == 0x2028 || code == 0x2029
        || code == 0x202F || code == 0x205F || code == 0x3000
}

/// Returns `s` without the white space at its front and at its back.
pub fn trim(s: &str) -> (out: &str)
    ensures
        out@ == trim_spec(s@),
{
    let len = s.unicode_len();
    let mut start: usize = 0;
    while start < len && is_white_space_char(s.get_char(start))
        invariant
            len == s@.len(),
            start <= len,
            forall|i: int| 0 <= i < start ==> is_white_space(#[trigger] s@[i]),
        decreases len - start,
    {
        start += 1;
    }
    proof {
        lemma_leading_white_space(s@, start as int);
    }
    let ghost rest = trim_start_spec(s@);
    let mut end: usize = len;
    while end > start && is_white_space_char(s.get_char(end - 1))
        invariant
            len == s@.len(),
            start <= end <= len,
            forall|i: int| end <= i < len ==> is_white_space(#[trigger] s@[i]),
        decreases end - start,
    {
        end -= 1;
    }
    proof {
        assert(rest.len() == len - start);
        assert forall|i: int| rest.len() - (len - end) <= i < rest.len() implies is_white_space(
            #[trigger] rest[i],
        ) by {
            assert(rest[i] == s@[i + start]);
        }
        if end > start {
            assert(rest[rest.len() - (len - end) - 1] == s@[end - 1]);
        }
        lemma_trailing_white_space(rest, len - end);
        assert(s@.subrange(start as int, end as int) =~= trim_spec(s@));
    }
    s.substring_char(start, end)
}


/// The least index at or after `from` at which `s` holds `c`, or the
/// length of `s` when there is none.
pub open spec fn first_index_from(s: Seq<char>, c: char, from: int) -> int
    decreases s.len() - from,
{
    if from < 0 || from >= s.len() {
        s.len() as int
    } else if s[from] == c {
        from
    } else {
        first_index_from(s, c, from + 1)
    }
}

/// The index that `first_index_from` gives is the least one that holds
/// `c`, or the length.
pub proof fn lemma_first_index_from(s: Seq<char>, c: char, from: int)
    requires
        0 <= from <= s.len(),
    ensures
        from <= first_index_from(s, c, from) <= s.len(),
        first_index_from(s, c, from) < s.len() ==> s[first_index_from(s, c, from)] == c,
        forall|i: int| from <= i < first_index_from(s, c, from) ==> #[trigger] s[i] != c,
    decreases s.len() - from,
{
    if from < s.len() && s[from] != c {
        lemma_first_index_from(s, c, from + 1);
    }
}

/// Finds the first `c` in `s`: its index, or the length of `s`.
pub fn find_char(s: &str, c: char) -> (out: usize)
    ensures
        out == first_index_from(s@, c, 0),
        out <= s@.len(),
{
    let len = s.unicode_len();
    let mut i: usize = 0;
    proof {
        lemma_first_index_from(s@, c, 0);
    }
    while i < len
        invariant
            len == s@.len(),
            i <= len,
            first_index_from(s@, c, 0) == first_index_from(s@, c, i as int),
        decreases len - i,
    {
        if s.get_char(i) == c {
            return i;
        }
        i += 1;
    }
    i
}

/// The two parts of `s` around its first `c`, or nothing when `s` has no
/// `c`.
pub open spec fn split_once_spec(s: Seq<char>, c: char) -> Option<(Seq<char>, Seq<char>)> {
    let at = first_index_from(s, c, 0);
    if at >= s.len() {
        None
    } else {
        Some((s.subrange(0, at), s.subrange(at + 1, s.len() as int)))
    }
}

/// Splits `s` at its first `c`.
pub fn split_once(s: &str, c: char) -> (out: Option<(&str, &str)>)
    ensures
        match split_once_spec(s@, c) {
            Some((before, after)) => out is Some && ({
                let found = out->0;
                found.0@ == before && found.1@ == after
            }),
            None => out is None,
        },
{
    let len = s.unicode_len();
    let at = find_char(s, c);
    if at >= len {
        None
    } else {
        Some((s.substring_char(0, at), s.substring_char(at + 1, len)))
    }
}

/// Number of characters `c` at the front of `s`.
pub open spec fn leading_run(s: Seq<char>, c: char) -> nat
    decreases s.len(),
{
    if s.len() > 0 && s[0] == c {
        1 + leading_run(s.drop_first(), c)
    } else {
        0
    }
}

/// Number of characters `c` at the back of `s`.
pub open spec fn trailing_run(s: Seq<char>, c: char) -> nat
    decreases s.len(),
{
    if s.len() > 0 && s.last() == c {
        1 + trailing_run(s.drop_last(), c)
    } else {
        0
    }
}

/// `s` without the characters `c` at its front and at its back.
pub open spec fn trim_matches_spec(s: Seq<char>, c: char) -> Seq<char> {
    let rest = s.subrange(leading_run(s, c) as int, s.len() as int);
    rest.subrange(0, rest.len() - trailing_run(rest, c))
}

/// `n` characters `c` followed by another character or by the end are
/// exactly the leading run.
pub proof fn lemma_leading_run(s: Seq<char>, c: char, n: int)
    requires
        0 <= n <= s.len(),
        forall|i: int| 0 <= i < n ==> #[trigger] s[i] == c,
        n < s.len() ==> s[n] != c,
    ensures
        leading_run(s, c) == n,
    decreases n,
{
    if n > 0 {
        let rest = s.drop_first();
        assert forall|i: int| 0 <= i < n - 1 implies #[trigger] rest[i] == c by {
            assert(rest[i] == s[i + 1]);
        }
        if n < s.len() {
            assert(rest[n - 1] == s[n]);
        }
        lemma_leading_run(rest, c, n - 1);
    }
}

/// `n` characters `c` at the back, preceded by another character or by
/// the beginning, are exactly the trailing run.
pub proof fn lemma_trailing_run(s: Seq<char>, c: char, n: int)
    requires
        0 <= n <= s.len(),
        forall|i: int| s.len() - n <= i < s.len() ==> #[trigger] s[i] == c,
        n < s.len() ==> s[s.len() - n - 1] != c,
    ensures
        trailing_run(s, c) == n,
    decreases n,
{
    if n > 0 {
        let rest = s.drop_last();
        assert forall|i: int| rest.len() - (n - 1) <= i < rest.len() implies #[trigger] rest[i]
            == c by {
            assert(rest[i] == s[i]);
        }
        if n < s.len() {
            assert(rest[rest.len() - (n - 1) - 1] == s[s.len() - n - 1]);
        }
        lemma_trailing_run(rest, c, n - 1);
    }
}

/// Returns `s` without the characters `c` at its front and at its back.
pub fn trim_matches(s: &str, c: char) -> (out: &str)
    ensures
        out@ == trim_matches_spec(s@, c),
{
    let len = s.unicode_len();
    let mut start: usize = 0;
    while start < len && s.get_char(start) == c
        invariant
            len == s@.len(),
            start <= len,
            forall|i: int| 0 <= i < start ==> #[trigger] s@[i] == c,
        decreases len - start,
    {
        start += 1;
    }
    proof {
        lemma_leading_run(s@, c, start as int);
    }
    let ghost rest = s@.subrange(start as int, len as int);
    let mut end: usize = len;
    while end > start && s.get_char(end - 1) == c
        invariant
            len == s@.len(),
            start <= end <= len,
            forall|i: int| end <= i < len ==> #[trigger] s@[i] == c,
        decreases end - start,
    {
        end -= 1;
    }
    proof {
        assert forall|i: int| rest.len() - (len - end) <= i < rest.len() implies #[trigger] rest[i]
            == c by {
            assert(rest[i] == s@[i + start]);
        }
        if end > start {
            assert(rest[rest.len() - (len - end) - 1] == s@[end - 1]);
        }
        lemma_trailing_run(rest, c, len - end);
        assert(s@.subrange(start as int, end as int) =~= trim_matches_spec(s@, c));
    }
    s.substring_char(start, end)
}

/// Whether `c` is one of the ten decimal digits.
pub open spec fn is_digit(c: char) -> bool {
    0x30 <= c as u32 <= 0x39
}

/// Whether `s` holds digits only.
pub open spec fn all_digits(s: Seq<char>) -> bool {
    forall|i: int| 0 <= i < s.len() ==> is_digit(#[trigger] s[i])
}

/// The number that the digits `s` write.
pub open spec fn digits_value(s: Seq<char>) -> nat
    decreases s.len(),
{
    if s.len() == 0 {
        0
    } else {
        (digits_value(s.drop_last()) * 10 + (s.last() as u32 - 0x30)) as nat
    }
}

/// The integer that `s` writes, if it writes one in `[min, max]`: an
/// optional sign, `+` or, if `signed`, `-`, and then one digit or more.
pub open spec fn parse_integer_spec(s: Seq<char>, min: int, max: int, signed: bool) -> Option<int> {
    let negative = signed && s.len() > 0 && s[0] == '-';
    let digits = if s.len() > 0 && (s[0] == '+' || negative) {
        s.drop_first()
    } else {
        s
    };
    if digits.len() == 0 || !all_digits(digits) {
        None
    } else {
        let value = if negative {
            -(digits_value(digits) as int)
        } else {
            digits_value(digits) as int
        };
        if min <= value <= max {
            Some(value)
        } else {
            None
        }
    }
}

/// Reads the integer that `s` writes, if it writes one in `[min, max]`.
pub fn parse_integer(s: &str, min: i128, max: i128, signed: bool) -> (out: Option<i128>)
    requires
        -0x1_0000_0000_0000_0000 <= min <= max <= 0x1_0000_0000_0000_0000,
    ensures
        out == (match parse_integer_spec(s@, min as int, max as int, signed) {
            Some(value) => Some(value as i128),
            None => None,
        }),
{
    let len = s.unicode_len();
    if len == 0 {
        return None;
    }
    let first = s.get_char(0);
    let negative = signed && first == '-';
    let start: usize = if first == '+' || negative {
        1
    } else {
        0
    };
    let ghost digits = s@.subrange(start as int, len as int);
    proof {
        if start == 1 {
            assert(digits =~= s@.drop_first());
        } else {
            assert(digits =~= s@);
        }
    }
    if start == len {
        return None;
    }
    let mut magnitude: u128 = 0;
    let mut too_large = false;
    let mut i: usize = start;
    assert(digits.subrange(0, 0) =~= Seq::<char>::empty());
    while i < len
        invariant
            len == s@.len(),
            start <= i <= len,
            digits == s@.subrange(start as int, len as int),
            negative == (signed && s@.len() > 0 && s@[0] == '-'),
            digits == (if s@.len() > 0 && (s@[0] == '+' || negative) {
                s@.drop_first()
            } else {
                s@
            }),
            all_digits(digits.subrange(0, i - start)),
            !too_large ==> magnitude == digits_value(digits.subrange(0, i - start)) && magnitude
                <= 0x1_0000_0000_0000_0000,
            too_large ==> digits_value(digits.subrange(0, i - start)) > 0x1_0000_0000_0000_0000,
        decreases len - i,
    {
        let c = s.get_char(i);
        let code = c as u32;
        let ghost prefix = digits.subrange(0, i - start);
        let ghost longer = digits.subrange(0, i + 1 - start);
        proof {
            assert(digits[i - start] == c);
            assert(longer.drop_last() =~= prefix);
            assert(longer.last() == c);
        }
        if code < 0x30 || code > 0x39 {
            proof {
                assert(!is_digit(digits[i - start]));
            }
            return None;
        }
        proof {
            assert forall|k: int| 0 <= k < longer.len() implies is_digit(#[trigger] longer[k]) by {
                if k < prefix.len() {
                    assert(longer[k] == prefix[k]);
                }
            }
            assert(digits_value(longer) == digits_value(prefix) * 10 + (code - 0x30));
        }
        if !too_large {
            magnitude = magnitude * 10 + (code - 0x30) as u128;
            if magnitude > 0x1_0000_0000_0000_0000 {
                too_large = true;
            }
        }
        i += 1;
    }
    proof {
        assert(digits.subrange(0, len - start) =~= digits);
    }
    if too_large {
        return None;
    }
    let value: i128 = if negative {
        -(magnitude as i128)
    } else {
        magnitude as i128
    };
    if min <= value && value <= max {
        Some(value)
    } else {
        None
    }
}


/// Tells whether two texts hold the same characters.
pub fn same_text(a: &str, b: &str) -> (out: bool)
    ensures
        out == (a@ == b@),
{
    let len = a.unicode_len();
    if len != b.unicode_len() {
        return false;
    }
    let mut i: usize = 0;
    while i < len
        invariant
            len == a@.len(),
            len == b@.len(),
            i <= len,
            forall|k: int| 0 <= k < i ==> a@[k] == b@[k],
        decreases len - i,
    {
        if a.get_char(i) != b.get_char(i) {
            return false;
        }
        i += 1;
    }
    assert(a@ =~= b@);
    true
}

/// `s` without one carriage return at its end.
pub open spec fn strip_carriage_return(s: Seq<char>) -> Seq<char> {
    if s.len() > 0 && s.last() == '\r' {
        s.drop_last()
    } else {
        s
    }
}

/// The lines of `s`: a line ends at a line feed or at a carriage return
/// with a line feed, neither of which belongs to it; the end of the text
/// ends the last line, unless nothing follows the last line feed.
pub open spec fn lines_spec(s: Seq<char>) -> Seq<Seq<char>>
    decreases s.len(),
{
    let at = first_index_from(s, '\n', 0);
    if s.len() == 0 {
        Seq::empty()
    } else if at >= s.len() || at < 0 {
        seq![s]
    } else {
        seq![strip_carriage_return(s.subrange(0, at))] + lines_spec(
            s.subrange(at + 1, s.len() as int),
        )
    }
}

/// The character sequences of a list of texts.
pub open spec fn texts_view(texts: Seq<&str>) -> Seq<Seq<char>> {
    texts.map_values(|t: &str| t@)
}

/// Splits a text into its lines.
pub fn lines<'a>(s: &'a str) -> (out: Vec<&'a str>)
    ensures
        texts_view(out@) == lines_spec(s@),
{
    let mut found: Vec<&'a str> = Vec::new();
    let mut rest: &'a str = s;
    assert(texts_view(found@) =~= Seq::<Seq<char>>::empty());
    assert(lines_spec(s@) =~= texts_view(found@) + lines_spec(rest@));
    loop
        invariant_except_break
            lines_spec(s@) == texts_view(found@) + lines_spec(rest@),
        ensures
            texts_view(found@) == lines_spec(s@),
        decreases rest@.len(),
    {
        let len = rest.unicode_len();
        if len == 0 {
            assert(lines_spec(rest@) =~= Seq::<Seq<char>>::empty());
            assert(texts_view(found@) + lines_spec(rest@) =~= texts_view(found@));
            break ;
        }
        let at = find_char(rest, '\n');
        let ghost before = texts_view(found@);
        if at >= len {
            found.push(rest);
            assert(texts_view(found@) =~= before + seq![rest@]);
            break ;
        }
        let mut line = rest.substring_char(0, at);
        if at > 0 && rest.get_char(at - 1) == '\r' {
            line = rest.substring_char(0, at - 1);
            assert(line@ =~= strip_carriage_return(rest@.subrange(0, at as int)));
        }
        found.push(line);
        let ghost old_rest = rest@;
        rest = rest.substring_char(at + 1, len);
        assert(texts_view(found@) =~= before + seq![
            strip_carriage_return(old_rest.subrange(0, at as int)),
        ]);
        assert(lines_spec(s@) =~= texts_view(found@) + lines_spec(rest@));
    }
    found
}


/// The pieces of `s` between the separators `sep`. A text without a
/// separator is one piece, and a separator at the end is followed by an
/// empty piece.
pub open spec fn split_spec(s: Seq<char>, sep: char) -> Seq<Seq<char>>
    decreases s.len(),
{
    let at = first_index_from(s, sep, 0);
    if at >= s.len() || at < 0 {
        seq![s]
    } else {
        seq![s.subrange(0, at)] + split_spec(s.subrange(at + 1, s.len() as int), sep)
    }
}

/// Splits a text at every separator `sep`.
pub fn split<'a>(s: &'a str, sep: char) -> (out: Vec<&'a str>)
    ensures
        texts_view(out@) == split_spec(s@, sep),
        out@.len() > 0,
{
    let mut found: Vec<&'a str> = Vec::new();
    let mut rest: &'a str = s;
    assert(split_spec(s@, sep) =~= texts_view(found@) + split_spec(rest@, sep));
    loop
        invariant_except_break
            split_spec(s@, sep) == texts_view(found@) + split_spec(rest@, sep),
        ensures
            texts_view(found@) == split_spec(s@, sep),
            found@.len() > 0,
        decreases rest@.len(),
    {
        let len = rest.unicode_len();
        let at = find_char(rest, sep);
        let ghost before = texts_view(found@);
        if at >= len {
            found.push(rest);
            assert(texts_view(found@) =~= before + seq![rest@]);
            break ;
        }
        found.push(rest.substring_char(0, at));
        let ghost old_rest = rest@;
        rest = rest.substring_char(at + 1, len);
        assert(texts_view(found@) =~= before + seq![old_rest.subrange(0, at as int)]);
        assert(split_spec(s@, sep) =~= texts_view(found@) + split_spec(rest@, sep));
    }
    found
}

} // verus!
