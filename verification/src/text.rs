use vstd::prelude::*;

verus! {

/// What `{:?}` formatting of a string slice prints: the text quoted, with escapes.
pub uninterp spec fn str_debug(text: Seq<char>) -> Seq<char>;

/// Formats a string slice with `{:?}`, which quotes it and escapes what needs escaping.
#[verifier::external_body]
pub(crate) fn debug_quoted(text: &str) -> (quoted: String)
    ensures
        quoted@ == str_debug(text@),
{
    format!("{text:?}")
}

/// Calls `String::push`, which appends one character to the end of the string.
#[verifier::external_body]
pub(crate) fn push_char(text: &mut String, c: char)
    ensures
        final(text)@ == old(text)@.push(c),
{
    text.push(c)
}

/// The characters of a string, in order.
pub fn chars_of(text: &str) -> (chars: Vec<char>)
    ensures
        chars@ == text@,
{
    let mut chars: Vec<char> = Vec::new();
    for c in iter: text.chars()
        invariant
            chars@ == iter.seq().take(iter.index() as int),
    {
        chars.push(c);
    }
    chars
}


/// Unicode `White_Space` characters, the set that `char::is_whitespace` recognises.
pub open spec fn is_white_space(c: char) -> bool {
    let v = c as u32;
    ||| 0x09 <= v <= 0x0d
    ||| v == 0x20
    ||| v == 0x85
    ||| v == 0xa0
    ||| v == 0x1680
    ||| 0x2000 <= v <= 0x200a
    ||| v == 0x2028
    ||| v == 0x2029
    ||| v == 0x202f
    ||| v == 0x205f
    ||| v == 0x3000
}

pub fn white_space(c: char) -> (r: bool)
    ensures
        r == is_white_space(c),
{
    let v = c as u32;
    (0x09 <= v && v <= 0x0d) || v == 0x20 || v == 0x85 || v == 0xa0 || v == 0x1680 || (0x2000
        <= v && v <= 0x200a) || v == 0x2028 || v == 0x2029 || v == 0x202f || v == 0x205f || v
        == 0x3000
}

/// Number of white-space characters at the start of `s`.
pub open spec fn leading_ws(s: Seq<char>) -> nat
    decreases s.len(),
{
    if s.len() > 0 && is_white_space(s[0]) {
        1 + leading_ws(s.drop_first())
    } else {
        0
    }
}

/// Number of white-space characters at the end of `s`.
pub open spec fn trailing_ws(s: Seq<char>) -> nat
    decreases s.len(),
{
    if s.len() > 0 && is_white_space(s.last()) {
        1 + trailing_ws(s.drop_last())
    } else {
        0
    }
}

proof fn lemma_leading_ws_bound(s: Seq<char>)
    ensures
        leading_ws(s) <= s.len(),
    decreases s.len(),
{
    if s.len() > 0 && is_white_space(s[0]) {
        lemma_leading_ws_bound(s.drop_first());
    }
}

proof fn lemma_trailing_ws_bound(s: Seq<char>)
    ensures
        trailing_ws(s) <= s.len(),
    decreases s.len(),
{
    if s.len() > 0 && is_white_space(s.last()) {
        lemma_trailing_ws_bound(s.drop_last());
    }
}

/// `s` with leading and trailing white space removed, as `str::trim` does.
pub open spec fn trim_chars(s: Seq<char>) -> Seq<char> {
    let t = s.skip(leading_ws(s) as int);
    t.take(t.len() - trailing_ws(t))
}

proof fn lemma_leading_ws_stop(s: Seq<char>)
    ensures
        leading_ws(s) < s.len() ==> !is_white_space(s[leading_ws(s) as int]),
    decreases s.len(),
{
    if s.len() > 0 && is_white_space(s[0]) {
        lemma_leading_ws_stop(s.drop_first());
        if leading_ws(s) < s.len() {
            assert(s[leading_ws(s) as int] == s.drop_first()[leading_ws(s.drop_first()) as int]);
        }
    }
}

proof fn lemma_trailing_ws_stop(s: Seq<char>)
    ensures
        trailing_ws(s) < s.len() ==> !is_white_space(s[s.len() - 1 - trailing_ws(s)]),
    decreases s.len(),
{
    if s.len() > 0 && is_white_space(s.last()) {
        lemma_trailing_ws_stop(s.drop_last());
        lemma_trailing_ws_bound(s.drop_last());
    }
}

/// Trimming text that is already trimmed changes nothing.
pub proof fn lemma_trim_idempotent(s: Seq<char>)
    ensures
        trim_chars(trim_chars(s)) == trim_chars(s),
{
    let t0 = s.skip(leading_ws(s) as int);
    lemma_leading_ws_bound(s);
    lemma_trailing_ws_bound(t0);
    lemma_leading_ws_stop(s);
    lemma_trailing_ws_stop(t0);
    let t = trim_chars(s);
    if t.len() > 0 {
        assert(t[0] == t0[0]);
        assert(leading_ws(t) == 0);
        assert(t.skip(0) =~= t);
        assert(t.last() == t0[t0.len() - 1 - trailing_ws(t0)]);
        assert(trailing_ws(t) == 0);
        assert(t.take(t.len() as int) =~= t);
    } else {
        assert(trim_chars(t) =~= t);
    }
}

/// Text with a character other than white space is not blank once trimmed.
pub proof fn lemma_trim_nonblank(s: Seq<char>, i: int)
    requires
        0 <= i < s.len(),
        !is_white_space(s[i]),
    ensures
        trim_chars(s).len() > 0,
{
    lemma_leading_ws_stop(s);
    lemma_leading_ws_bound(s);
    assert(leading_ws(s) <= i) by {
        lemma_leading_ws_prefix(s, i);
    }
    let t = s.skip(leading_ws(s) as int);
    lemma_trailing_ws_bound(t);
    lemma_trailing_ws_stop(t);
    assert(!is_white_space(t[0]));
    if trailing_ws(t) == t.len() {
        lemma_trailing_all(t);
    }
}

proof fn lemma_leading_ws_prefix(s: Seq<char>, i: int)
    requires
        0 <= i < s.len(),
        !is_white_space(s[i]),
    ensures
        leading_ws(s) <= i,
    decreases i,
{
    if i > 0 && is_white_space(s[0]) {
        lemma_leading_ws_prefix(s.drop_first(), i - 1);
    }
}

proof fn lemma_trailing_all(t: Seq<char>)
    requires
        trailing_ws(t) == t.len(),
    ensures
        forall|j: int| 0 <= j < t.len() ==> is_white_space(t[j]),
    decreases t.len(),
{
    if t.len() > 0 {
        lemma_trailing_ws_bound(t.drop_last());
        lemma_trailing_all(t.drop_last());
        assert forall|j: int| 0 <= j < t.len() implies is_white_space(t[j]) by {
            if j < t.len() - 1 {
                assert(t[j] == t.drop_last()[j]);
            }
        }
    }
}

/// The characters `chars[start..end]` as a string.
pub fn string_from_chars(chars: &Vec<char>, start: usize, end: usize) -> (text: String)
    requires
        start <= end <= chars.len(),
    ensures
        text@ == chars@.subrange(start as int, end as int),
{
    let mut text = String::new();
    let mut i = start;
    while i < end
        invariant
            start <= i <= end <= chars.len(),
            text@ == chars@.subrange(start as int, i as int),
        decreases end - i,
    {
        push_char(&mut text, chars[i]);
        assert(chars@.subrange(start as int, i + 1) =~= chars@.subrange(start as int, i as int).push(
            chars@[i as int],
        ));
        i += 1;
    }
    text
}

/// The bounds `(start, end)` of the trimmed part of `chars`.
pub fn trim_bounds(chars: &Vec<char>) -> (bounds: (usize, usize))
    ensures
        bounds.0 <= bounds.1 <= chars.len(),
        chars@.subrange(bounds.0 as int, bounds.1 as int) == trim_chars(chars@),
{
    let ghost s = chars@;
    let n = chars.len();
    let mut a: usize = 0;
    assert(s.skip(0) =~= s);
    while a < n && white_space(chars[a])
        invariant
            a <= n == s.len(),
            s == chars@,
            leading_ws(s) == a + leading_ws(s.skip(a as int)),
        decreases n - a,
    {
        assert(s.skip(a as int).drop_first() =~= s.skip(a + 1));
        a += 1;
    }
    assert(leading_ws(s.skip(a as int)) == 0);
    let ghost t = s.skip(a as int);
    let mut b: usize = n;
    assert(s.subrange(a as int, n as int) =~= t);
    while b > a && white_space(chars[b - 1])
        invariant
            a <= b <= n == s.len(),
            s == chars@,
            t == s.skip(a as int),
            trailing_ws(t) == (n - b) + trailing_ws(s.subrange(a as int, b as int)),
        decreases b - a,
    {
        assert(s.subrange(a as int, b as int).drop_last() =~= s.subrange(a as int, b - 1));
        b -= 1;
    }
    assert(trailing_ws(s.subrange(a as int, b as int)) == 0);
    assert(t.take(t.len() - trailing_ws(t)) =~= s.subrange(a as int, b as int));
    (a, b)
}

/// The ASCII digit for a value below 10.
pub open spec fn digit_char(d: int) -> char {
    (48 + d) as char
}

/// Decimal text of a natural number, without leading zeros.
pub open spec fn decimal(n: nat) -> Seq<char>
    decreases n,
{
    if n < 10 {
        seq![digit_char(n as int)]
    } else {
        decimal(n / 10).push(digit_char((n % 10) as int))
    }
}

fn digit(d: u8) -> (c: char)
    requires
        d < 10,
    ensures
        c == digit_char(d as int),
{
    (48 + d) as char
}

/// Appends the decimal text of `value`.
pub fn push_decimal_u8(text: &mut String, value: u8)
    ensures
        final(text)@ == old(text)@ + decimal(value as nat),
{
    proof {
        reveal_with_fuel(decimal, 3);
    }
    if value >= 100 {
        push_char(text, digit(value / 100));
        push_char(text, digit((value / 10) % 10));
        push_char(text, digit(value % 10));
        assert(decimal(value as nat) =~= seq![
            digit_char((value / 100) as int),
            digit_char(((value / 10) % 10) as int),
            digit_char((value % 10) as int),
        ]);
    } else if value >= 10 {
        push_char(text, digit(value / 10));
        push_char(text, digit(value % 10));
        assert(decimal(value as nat) =~= seq![
            digit_char((value / 10) as int),
            digit_char((value % 10) as int),
        ]);
    } else {
        push_char(text, digit(value));
    }
    assert(final(text)@ =~= old(text)@ + decimal(value as nat));
}

/// Appends the decimal text of `value`.
pub fn push_decimal(text: &mut String, value: u64)
    ensures
        final(text)@ == old(text)@ + decimal(value as nat),
    decreases value,
{
    if value >= 10 {
        push_decimal(text, value / 10);
    }
    push_char(text, digit((value % 10) as u8));
    proof {
        if value < 10 {
            assert(decimal(value as nat) =~= seq![digit_char(value as int)]);
        }
    }
    assert(final(text)@ =~= old(text)@ + decimal(value as nat));
}

/// Appends a string slice.
pub fn push_str(text: &mut String, suffix: &str)
    ensures
        final(text)@ == old(text)@ + suffix@,
{
    text.append(suffix);
}

/// Position of the first line feed in `s`, or its length when there is none.
pub open spec fn first_newline(s: Seq<char>) -> nat
    decreases s.len(),
{
    if s.len() == 0 {
        0
    } else if s[0] == '\n' {
        0
    } else {
        1 + first_newline(s.drop_first())
    }
}

pub proof fn lemma_first_newline(s: Seq<char>)
    ensures
        first_newline(s) <= s.len(),
        forall|j: int| 0 <= j < first_newline(s) ==> s[j] != '\n',
        first_newline(s) < s.len() ==> s[first_newline(s) as int] == '\n',
    decreases s.len(),
{
    if s.len() > 0 && s[0] != '\n' {
        lemma_first_newline(s.drop_first());
        assert forall|j: int| 0 <= j < first_newline(s) implies s[j] != '\n' by {
            if j > 0 {
                assert(s[j] == s.drop_first()[j - 1]);
            }
        }
    }
}

/// The first line feed is at `n` when `s[n]` is one and none comes before.
pub proof fn lemma_first_newline_is(s: Seq<char>, n: int)
    requires
        0 <= n < s.len(),
        s[n] == '\n',
        forall|j: int| 0 <= j < n ==> s[j] != '\n',
    ensures
        first_newline(s) == n,
    decreases n,
{
    if n > 0 {
        lemma_first_newline_is(s.drop_first(), n - 1);
    }
}

/// A line without its terminator: a carriage return is dropped only before a line feed.
pub open spec fn strip_carriage_return(line: Seq<char>) -> Seq<char> {
    if line.len() > 0 && line.last() == '\r' {
        line.drop_last()
    } else {
        line
    }
}

/// The lines of a text as `str::lines` gives them: split at line feeds, a carriage return
/// before a line feed removed, and no empty line after a final line feed.
pub open spec fn text_lines(s: Seq<char>) -> Seq<Seq<char>>
    decreases s.len(),
{
    if s.len() == 0 {
        Seq::empty()
    } else {
        let n = first_newline(s);
        if n >= s.len() {
            seq![s]
        } else {
            seq![strip_carriage_return(s.take(n as int))] + text_lines(s.skip(n + 1 as int))
        }
    }
}

/// The lines of `text`, as `str::lines` gives them.
pub fn lines_of(text: &str) -> (lines: Vec<Vec<char>>)
    ensures
        lines@.map_values(|line: Vec<char>| line@) == text_lines(text@),
{
    let chars = chars_of(text);
    let ghost s = text@;
    let mut lines: Vec<Vec<char>> = Vec::new();
    let mut current: Vec<char> = Vec::new();
    let mut start: usize = 0;
    let mut i: usize = 0;
    assert(s.skip(0) =~= s);
    assert(lines@.map_values(|line: Vec<char>| line@) + text_lines(s.skip(0)) =~= text_lines(s));
    while i < chars.len()
        invariant
            chars@ == s,
            start <= i <= s.len(),
            current@ == s.subrange(start as int, i as int),
            forall|j: int| start <= j < i ==> s[j] != '\n',
            lines@.map_values(|line: Vec<char>| line@) + text_lines(s.skip(start as int))
                == text_lines(s),
        decreases s.len() - i,
    {
        let c = chars[i];
        if c == '\n' {
            let ghost rest = s.skip(start as int);
            proof {
                lemma_first_newline(rest);
                assert forall|j: int| 0 <= j < i - start implies rest[j] != '\n' by {
                    assert(rest[j] == s[start + j]);
                }
                if first_newline(rest) < i - start {
                    assert(rest[first_newline(rest) as int] == s[start + first_newline(rest)]);
                }
                assert(rest[i - start] == s[i as int]);
                assert(first_newline(rest) == i - start);
                assert(rest.take(i - start) =~= current@);
                assert(rest.skip(i - start + 1) =~= s.skip(i + 1));
            }
            let mut line = current;
            let n = line.len();
            if n > 0 && line[n - 1] == '\r' {
                line.pop();
            }
            let ghost before = lines@;
            lines.push(line);
            proof {
                assert(lines@.map_values(|line: Vec<char>| line@) =~= before.map_values(
                    |line: Vec<char>| line@,
                ).push(strip_carriage_return(rest.take(i - start))));
                assert(seq![strip_carriage_return(rest.take(i - start))] + text_lines(s.skip(i + 1))
                    == text_lines(rest));
                assert(lines@.map_values(|line: Vec<char>| line@) + text_lines(s.skip(i + 1))
                    =~= before.map_values(|line: Vec<char>| line@) + text_lines(rest));
            }
            current = Vec::new();
            start = i + 1;
        } else {
            current.push(c);
        }
        i += 1;
        assert(current@ =~= s.subrange(start as int, i as int));
    }
    let ghost rest = s.skip(start as int);
    if current.len() > 0 {
        proof {
            lemma_first_newline(rest);
            assert forall|j: int| 0 <= j < rest.len() implies rest[j] != '\n' by {
                assert(rest[j] == s[start + j]);
            }
            if first_newline(rest) < rest.len() {
                assert(rest[first_newline(rest) as int] == s[start + first_newline(rest)]);
            }
            assert(current@ =~= rest);
        }
        let ghost before = lines@;
        lines.push(current);
        assert(lines@.map_values(|line: Vec<char>| line@) =~= before.map_values(
            |line: Vec<char>| line@,
        ) + text_lines(rest));
    } else {
        assert(rest.len() == 0);
        assert(lines@.map_values(|line: Vec<char>| line@) =~= lines@.map_values(
            |line: Vec<char>| line@,
        ) + text_lines(rest));
    }
    lines
}

/// The characters `line` spell `expected`.
pub fn chars_match(line: &Vec<char>, expected: &str) -> (same: bool)
    ensures
        same == (line@ == expected@),
{
    let want = chars_of(expected);
    if line.len() != want.len() {
        return false;
    }
    let mut i: usize = 0;
    while i < line.len()
        invariant
            line@.len() == want@.len(),
            want@ == expected@,
            i <= line@.len(),
            forall|j: int| 0 <= j < i ==> line@[j] == want@[j],
        decreases line@.len() - i,
    {
        if line[i] != want[i] {
            return false;
        }
        i += 1;
    }
    assert(line@ =~= want@);
    true
}

/// Position of the first `c` in `s`, or its length when there is none.
pub open spec fn first_index_of(s: Seq<char>, c: char) -> nat
    decreases s.len(),
{
    if s.len() == 0 {
        0
    } else if s[0] == c {
        0
    } else {
        1 + first_index_of(s.drop_first(), c)
    }
}

pub proof fn lemma_first_index_of(s: Seq<char>, c: char)
    ensures
        first_index_of(s, c) <= s.len(),
        forall|j: int| 0 <= j < first_index_of(s, c) ==> s[j] != c,
        first_index_of(s, c) < s.len() ==> s[first_index_of(s, c) as int] == c,
    decreases s.len(),
{
    if s.len() > 0 && s[0] != c {
        lemma_first_index_of(s.drop_first(), c);
        assert forall|j: int| 0 <= j < first_index_of(s, c) implies s[j] != c by {
            if j > 0 {
                assert(s[j] == s.drop_first()[j - 1]);
            }
        }
    }
}

/// The first `c` is at `n` when `s[n]` is one and none comes before.
pub proof fn lemma_first_index_is(s: Seq<char>, c: char, n: int)
    requires
        0 <= n < s.len(),
        s[n] == c,
        forall|j: int| 0 <= j < n ==> s[j] != c,
    ensures
        first_index_of(s, c) == n,
    decreases n,
{
    if n > 0 {
        lemma_first_index_is(s.drop_first(), c, n - 1);
    }
}

/// When `c` does not occur in `s`, its first position is the length.
pub proof fn lemma_first_index_absent(s: Seq<char>, c: char)
    requires
        forall|j: int| 0 <= j < s.len() ==> s[j] != c,
    ensures
        first_index_of(s, c) == s.len(),
    decreases s.len(),
{
    if s.len() > 0 {
        lemma_first_index_absent(s.drop_first(), c);
    }
}

/// The pieces of `s` between occurrences of `sep`, as `str::split` with a character gives them.
pub open spec fn split_char(s: Seq<char>, sep: char) -> Seq<Seq<char>>
    decreases s.len(),
{
    let n = first_index_of(s, sep);
    if n >= s.len() {
        seq![s]
    } else {
        seq![s.take(n as int)] + split_char(s.skip(n + 1 as int), sep)
    }
}

/// The pieces of `chars` between occurrences of `sep`.
pub fn split_on(chars: &Vec<char>, sep: char) -> (pieces: Vec<Vec<char>>)
    ensures
        pieces@.map_values(|piece: Vec<char>| piece@) == split_char(chars@, sep),
        pieces@.len() >= 1,
{
    let ghost s = chars@;
    let mut pieces: Vec<Vec<char>> = Vec::new();
    let mut current: Vec<char> = Vec::new();
    let mut start: usize = 0;
    let mut i: usize = 0;
    assert(s.skip(0) =~= s);
    assert(pieces@.map_values(|piece: Vec<char>| piece@) + split_char(s.skip(0), sep) =~= split_char(s, sep));
    while i < chars.len()
        invariant
            chars@ == s,
            start <= i <= s.len(),
            current@ == s.subrange(start as int, i as int),
            forall|j: int| start <= j < i ==> s[j] != sep,
            pieces@.map_values(|piece: Vec<char>| piece@) + split_char(s.skip(start as int), sep)
                == split_char(s, sep),
        decreases s.len() - i,
    {
        let c = chars[i];
        if c == sep {
            let ghost rest = s.skip(start as int);
            proof {
                assert forall|j: int| 0 <= j < i - start implies rest[j] != sep by {
                    assert(rest[j] == s[start + j]);
                }
                assert(rest[i - start] == s[i as int]);
                lemma_first_index_is(rest, sep, i - start);
                assert(rest.take(i - start) =~= current@);
                assert(rest.skip(i - start + 1) =~= s.skip(i + 1));
            }
            let ghost before = pieces@;
            pieces.push(current);
            proof {
                assert(pieces@.map_values(|piece: Vec<char>| piece@) =~= before.map_values(
                    |piece: Vec<char>| piece@,
                ).push(rest.take(i - start)));
                assert(pieces@.map_values(|piece: Vec<char>| piece@) + split_char(s.skip(i + 1), sep)
                    =~= before.map_values(|piece: Vec<char>| piece@) + split_char(rest, sep));
            }
            current = Vec::new();
            start = i + 1;
        } else {
            current.push(c);
        }
        i += 1;
        assert(current@ =~= s.subrange(start as int, i as int));
    }
    let ghost rest = s.skip(start as int);
    proof {
        assert forall|j: int| 0 <= j < rest.len() implies rest[j] != sep by {
            assert(rest[j] == s[start + j]);
        }
        lemma_first_index_absent(rest, sep);
        assert(current@ =~= rest);
    }
    let ghost before = pieces@;
    pieces.push(current);
    assert(pieces@.map_values(|piece: Vec<char>| piece@) =~= before.map_values(
        |piece: Vec<char>| piece@,
    ) + split_char(rest, sep));
    pieces
}

/// The text of a failed UTF-8 conversion of `bytes`, as its error displays it.
pub uninterp spec fn utf8_error_text(bytes: Seq<u8>) -> Seq<char>;

/// Calls `String::from_utf8`, which accepts exactly the valid UTF-8 byte sequences and
/// gives the string they encode; on failure, the error's display text.
#[verifier::external_body]
pub(crate) fn string_from_utf8(bytes: Vec<u8>) -> (result: Result<String, String>)
    ensures
        match result {
            Ok(text) => vstd::utf8::valid_utf8(bytes@) && text@ == vstd::utf8::decode_utf8(bytes@),
            Err(error) => !vstd::utf8::valid_utf8(bytes@) && error@ == utf8_error_text(bytes@),
        },
{
    match String::from_utf8(bytes) {
        Ok(text) => Ok(text),
        Err(error) => Err(error.to_string()),
    }
}

/// Every character is an ASCII digit.
pub open spec fn all_digits(s: Seq<char>) -> bool {
    forall|i: int| 0 <= i < s.len() ==> '0' <= #[trigger] s[i] <= '9'
}

/// The number that decimal digits spell.
pub open spec fn digits_value(s: Seq<char>) -> nat
    decreases s.len(),
{
    if s.len() == 0 {
        0
    } else {
        digits_value(s.drop_last()) * 10 + (s.last() as nat - '0' as nat) as nat
    }
}

/// The display text of the error from parsing the digits `text` as a `u32`.
pub uninterp spec fn int_error_text(text: Seq<char>) -> Seq<char>;

/// Calls `str::parse::<u32>` on decimal digits: the value when it fits, else the error's
/// display text.
#[verifier::external_body]
pub(crate) fn parse_u32_digits(text: &str) -> (result: Result<u32, String>)
    requires
        text@.len() > 0,
        all_digits(text@),
    ensures
        match result {
            Ok(value) => digits_value(text@) <= u32::MAX && value == digits_value(text@),
            Err(error) => digits_value(text@) > u32::MAX && error@ == int_error_text(text@),
        },
{
    match text.parse::<u32>() {
        Ok(value) => Ok(value),
        Err(error) => Err(error.to_string()),
    }
}

pub fn is_all_digits(chars: &Vec<char>) -> (digits: bool)
    ensures
        digits == all_digits(chars@),
{
    let mut i: usize = 0;
    while i < chars.len()
        invariant
            i <= chars@.len(),
            forall|j: int| 0 <= j < i ==> '0' <= #[trigger] chars@[j] <= '9',
        decreases chars@.len() - i,
    {
        let c = chars[i];
        if !('0' <= c && c <= '9') {
            return false;
        }
        i += 1;
    }
    true
}

/// `prefix` starts `s`.
pub open spec fn has_prefix(s: Seq<char>, prefix: Seq<char>) -> bool {
    prefix.len() <= s.len() && s.take(prefix.len() as int) == prefix
}

/// Whether `chars` starts with `prefix`.
pub fn starts_with(chars: &Vec<char>, prefix: &str) -> (found: bool)
    ensures
        found == has_prefix(chars@, prefix@),
{
    let want = chars_of(prefix);
    if want.len() > chars.len() {
        return false;
    }
    let mut i: usize = 0;
    while i < want.len()
        invariant
            want@ == prefix@,
            want@.len() <= chars@.len(),
            i <= want@.len(),
            forall|j: int| 0 <= j < i ==> chars@[j] == want@[j],
        decreases want@.len() - i,
    {
        if chars[i] != want[i] {
            assert(chars@.take(want@.len() as int)[i as int] != want@[i as int]);
            return false;
        }
        i += 1;
    }
    assert(chars@.take(want@.len() as int) =~= want@);
    true
}

/// Lines each followed by a line feed.
pub open spec fn joined_lines(lines: Seq<Seq<char>>) -> Seq<char>
    decreases lines.len(),
{
    if lines.len() == 0 {
        Seq::empty()
    } else {
        joined_lines(lines.drop_last()) + lines.last() + "\n"@
    }
}

/// A line that `text_lines` gives back unchanged: no line feed in it, no carriage return
/// at its end.
pub open spec fn plain_line(line: Seq<char>) -> bool {
    &&& forall|j: int| 0 <= j < line.len() ==> line[j] != '\n'
    &&& (line.len() > 0 ==> line.last() != '\r')
}

pub proof fn lemma_joined_lines_append(a: Seq<Seq<char>>, b: Seq<Seq<char>>)
    ensures
        joined_lines(a + b) == joined_lines(a) + joined_lines(b),
    decreases b.len(),
{
    if b.len() == 0 {
        assert(a + b =~= a);
        assert(joined_lines(b) =~= Seq::<char>::empty());
        assert(joined_lines(a) + joined_lines(b) =~= joined_lines(a));
    } else {
        lemma_joined_lines_append(a, b.drop_last());
        assert((a + b).drop_last() =~= a + b.drop_last());
        assert(joined_lines(a + b) =~= joined_lines(a) + joined_lines(b));
    }
}

/// Text that starts with a line and a line feed has that line first.
pub proof fn lemma_text_lines_first(line: Seq<char>, rest: Seq<char>)
    requires
        plain_line(line),
    ensures
        text_lines(line + "\n"@ + rest) == seq![line] + text_lines(rest),
{
    reveal_strlit("\n");
    let s = line + "\n"@ + rest;
    assert(s[line.len() as int] == '\n');
    assert forall|j: int| 0 <= j < line.len() implies s[j] != '\n' by {
        assert(s[j] == line[j]);
    }
    lemma_first_newline_is(s, line.len() as int);
    assert(s.take(line.len() as int) =~= line);
    assert(s.skip(line.len() + 1 as int) =~= rest);
    assert(strip_carriage_return(line) == line);
}

/// Joined plain lines are read back as the same lines.
pub proof fn lemma_text_lines_joined(lines: Seq<Seq<char>>)
    requires
        forall|i: int| 0 <= i < lines.len() ==> plain_line(#[trigger] lines[i]),
    ensures
        text_lines(joined_lines(lines)) == lines,
    decreases lines.len(),
{
    if lines.len() == 0 {
        assert(joined_lines(lines) =~= Seq::<char>::empty());
        assert(text_lines(Seq::<char>::empty()) =~= lines);
    } else {
        let rest = lines.drop_first();
        assert(lines =~= seq![lines[0]] + rest);
        lemma_joined_lines_append(seq![lines[0]], rest);
        assert(seq![lines[0]].drop_last() =~= Seq::<Seq<char>>::empty());
        assert(joined_lines(Seq::<Seq<char>>::empty()) =~= Seq::<char>::empty());
        assert(joined_lines(seq![lines[0]]) =~= lines[0] + "\n"@);
        assert forall|i: int| 0 <= i < rest.len() implies plain_line(#[trigger] rest[i]) by {
            assert(rest[i] == lines[i + 1]);
        }
        lemma_text_lines_joined(rest);
        lemma_text_lines_first(lines[0], joined_lines(rest));
        assert(joined_lines(lines) =~= lines[0] + "\n"@ + joined_lines(rest));
    }
}

/// Splitting at the first separator gives the part before it, then the rest's pieces.
pub proof fn lemma_split_first(piece: Seq<char>, sep: char, rest: Seq<char>)
    requires
        forall|j: int| 0 <= j < piece.len() ==> piece[j] != sep,
    ensures
        split_char(piece + seq![sep] + rest, sep) == seq![piece] + split_char(rest, sep),
{
    let s = piece + seq![sep] + rest;
    assert(s[piece.len() as int] == sep);
    assert forall|j: int| 0 <= j < piece.len() implies s[j] != sep by {
        assert(s[j] == piece[j]);
    }
    lemma_first_index_is(s, sep, piece.len() as int);
    assert(s.take(piece.len() as int) =~= piece);
    assert(s.skip(piece.len() + 1 as int) =~= rest);
}

/// Text without the separator is one piece.
pub proof fn lemma_split_none(piece: Seq<char>, sep: char)
    requires
        forall|j: int| 0 <= j < piece.len() ==> piece[j] != sep,
    ensures
        split_char(piece, sep) == seq![piece],
{
    lemma_first_index_absent(piece, sep);
}

/// Some entry of `list` is `text`.
pub open spec fn lists(list: Seq<String>, text: Seq<char>) -> bool {
    exists|i: int| 0 <= i < list.len() && (#[trigger] list[i])@ == text
}

pub fn contains_text(list: &Vec<String>, text: &str) -> (found: bool)
    ensures
        found == lists(list@, text@),
{
    let mut i: usize = 0;
    while i < list.len()
        invariant
            i <= list@.len(),
            forall|j: int| 0 <= j < i ==> (#[trigger] list@[j])@ != text@,
        decreases list@.len() - i,
    {
        let chars = chars_of(list[i].as_str());
        if chars_match(&chars, text) {
            return true;
        }
        i += 1;
    }
    false
}

/// Whether `a` and `b` spell the same text.
pub fn same_text(a: &str, b: &str) -> (same: bool)
    ensures
        same == (a@ == b@),
{
    let chars = chars_of(a);
    chars_match(&chars, b)
}

} // verus!
