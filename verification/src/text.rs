//! Text primitives: decimal numbers, hexadecimal digits, white space and the
//! splitting of `host:port` forms. All of them are stated over sequences of
//! characters.

use vstd::prelude::*;

verus! {

/// Whether `c` is one of the ten ASCII digits.
pub open spec fn is_digit(c: char) -> bool {
    '0' <= c <= '9'
}

/// The value of an ASCII digit.
pub open spec fn digit_value(c: char) -> nat
    recommends
        is_digit(c),
{
    (c as int - '0' as int) as nat
}

/// The ASCII digit of value `d`.
pub open spec fn digit_char(d: nat) -> char
    recommends
        d < 10,
{
    ('0' as int + d as int) as char
}

/// The number that a run of digits denotes in base ten; the empty run is zero.
pub open spec fn decimal_value(digits: Seq<char>) -> nat
    decreases digits.len(),
{
    if digits.len() == 0 {
        0
    } else {
        decimal_value(digits.drop_last()) * 10 + digit_value(digits.last())
    }
}

/// The shortest base-ten form of `n`.
pub open spec fn decimal(n: nat) -> Seq<char>
    decreases n,
{
    if n < 10 {
        seq![digit_char(n)]
    } else {
        decimal(n / 10).push(digit_char(n % 10))
    }
}

/// Every character of `s` is a digit.
pub open spec fn all_digits(s: Seq<char>) -> bool {
    forall|i: int| 0 <= i < s.len() ==> is_digit(#[trigger] s[i])
}

/// The base-ten form of a number is a non-empty run of digits, and reading it
/// back gives the number.
pub proof fn decimal_reads_back(n: nat)
    ensures
        decimal(n).len() > 0,
        all_digits(decimal(n)),
        decimal_value(decimal(n)) == n,
    decreases n,
{
    if n < 10 {
        assert(decimal(n).drop_last() =~= Seq::<char>::empty());
        assert(decimal_value(Seq::<char>::empty()) == 0);
        assert(decimal_value(decimal(n)) == decimal_value(decimal(n).drop_last()) * 10
            + digit_value(decimal(n).last()));
    } else {
        decimal_reads_back(n / 10);
        assert(decimal(n).drop_last() =~= decimal(n / 10));
    }
}

/// The text of the digit `d`.
fn digit_text(d: u64) -> (text: &'static str)
    requires
        d < 10,
    ensures
        text@ == seq![digit_char(d as nat)],
{
    proof {
        reveal_strlit("0");
        reveal_strlit("1");
        reveal_strlit("2");
        reveal_strlit("3");
        reveal_strlit("4");
        reveal_strlit("5");
        reveal_strlit("6");
        reveal_strlit("7");
        reveal_strlit("8");
        reveal_strlit("9");
    }
    let text: &'static str = match d {
        0 => "0",
        1 => "1",
        2 => "2",
        3 => "3",
        4 => "4",
        5 => "5",
        6 => "6",
        7 => "7",
        8 => "8",
        _ => "9",
    };
    assert(text@ =~= seq![digit_char(d as nat)]);
    text
}

/// Appends the base-ten form of `n`.
pub fn append_decimal(out: &mut String, n: u64)
    ensures
        final(out)@ == old(out)@ + decimal(n as nat),
    decreases n,
{
    if n >= 10 {
        append_decimal(out, n / 10);
    }
    out.append(digit_text(n % 10));
    assert(out@ =~= old(out)@ + decimal(n as nat));
}

/// Whether two texts are the same.
pub fn same_text(a: &str, b: &str) -> (same: bool)
    ensures
        same == (a@ == b@),
{
    a.to_owned() == b.to_owned()
}

/// The characters of a text.
pub fn chars_of(text: &str) -> (chars: Vec<char>)
    ensures
        chars@ == text@,
{
    let mut chars: Vec<char> = Vec::new();
    for c in it: text.chars()
        invariant
            chars@ == it.seq().take(it.index() as int),
            it.seq() == text@,
    {
        chars.push(c);
    }
    chars
}

/// Why a text is not a `u16`.
#[derive(Debug, Clone, Copy, PartialEq, Eq, Structural)]
pub enum ParseU16Error {
    /// The text is empty.
    Empty,
    /// A character that is no digit stands where a digit is due.
    InvalidDigit,
    /// The digits denote more than `u16::MAX`.
    TooLarge,
}

impl ParseU16Error {
    /// The message for people.
    pub open spec fn message(self) -> Seq<char> {
        match self {
            ParseU16Error::Empty => "cannot parse integer from empty string"@,
            ParseU16Error::InvalidDigit => "invalid digit found in string"@,
            ParseU16Error::TooLarge => "number too large to fit in target type"@,
        }
    }

    /// The message for people, in the words of the standard library.
    pub fn to_string(&self) -> (text: String)
        ensures
            text@ == self.message(),
    {
        match self {
            ParseU16Error::Empty => "cannot parse integer from empty string".to_owned(),
            ParseU16Error::InvalidDigit => "invalid digit found in string".to_owned(),
            ParseU16Error::TooLarge => "number too large to fit in target type".to_owned(),
        }
    }
}

/// The end of the run of digits that starts at `i`.
pub open spec fn digits_end(s: Seq<char>, i: int) -> int
    decreases s.len() - i,
{
    if 0 <= i < s.len() && is_digit(s[i]) {
        digits_end(s, i + 1)
    } else {
        i
    }
}

/// What `s` denotes as a `u16`: an optional `+`, then digits alone. Of two
/// faults the one further left is reported.
pub open spec fn u16_of(s: Seq<char>) -> Result<u16, ParseU16Error> {
    if s.len() == 0 {
        Err(ParseU16Error::Empty)
    } else {
        let start: int = if s[0] == '+' && s.len() > 1 {
            1
        } else {
            0
        };
        let end = digits_end(s, start);
        let value = decimal_value(s.subrange(start, end));
        if value > u16::MAX {
            Err(ParseU16Error::TooLarge)
        } else if end < s.len() {
            Err(ParseU16Error::InvalidDigit)
        } else {
            Ok(value as u16)
        }
    }
}

/// A run of digits ends no earlier than it starts, and everything in it is a
/// digit.
proof fn digits_end_bounds(s: Seq<char>, i: int)
    requires
        0 <= i <= s.len(),
    ensures
        i <= digits_end(s, i) <= s.len(),
        all_digits(s.subrange(i, digits_end(s, i))),
    decreases s.len() - i,
{
    if i < s.len() && is_digit(s[i]) {
        digits_end_bounds(s, i + 1);
        let run = s.subrange(i, digits_end(s, i));
        let rest = s.subrange(i + 1, digits_end(s, i));
        assert forall|j: int| 0 <= j < run.len() implies is_digit(#[trigger] run[j]) by {
            if j > 0 {
                assert(run[j] == rest[j - 1]);
            }
        }
    }
}

/// A run of digits up to the end of the text.
proof fn digits_end_of_digits(s: Seq<char>, i: int)
    requires
        0 <= i <= s.len(),
        forall|j: int| i <= j < s.len() ==> is_digit(#[trigger] s[j]),
    ensures
        digits_end(s, i) == s.len(),
    decreases s.len() - i,
{
    if i < s.len() {
        digits_end_of_digits(s, i + 1);
    }
}

/// Longer runs of digits denote no smaller numbers.
proof fn decimal_value_grows(s: Seq<char>, start: int, mid: int, end: int)
    requires
        0 <= start <= mid <= end <= s.len(),
    ensures
        decimal_value(s.subrange(start, mid)) <= decimal_value(s.subrange(start, end)),
    decreases end - mid,
{
    if mid < end {
        decimal_value_grows(s, start, mid, end - 1);
        assert(s.subrange(start, end).drop_last() =~= s.subrange(start, end - 1));
    }
}

/// The base-ten form of a `u16` denotes that `u16`.
pub proof fn decimal_is_read_as_u16(n: u16)
    ensures
        u16_of(decimal(n as nat)) == Ok::<u16, ParseU16Error>(n),
{
    let s = decimal(n as nat);
    decimal_reads_back(n as nat);
    assert(is_digit(s[0]));
    digits_end_of_digits(s, 0);
    assert(s.subrange(0, s.len() as int) =~= s);
}

/// Reads a text as a `u16`.
pub fn parse_u16(text: &str) -> (parsed: Result<u16, ParseU16Error>)
    ensures
        parsed == u16_of(text@),
{
    let chars = chars_of(text);
    if chars.len() == 0 {
        return Err(ParseU16Error::Empty);
    }
    let start: usize = if chars[0] == '+' && chars.len() > 1 {
        1
    } else {
        0
    };
    let mut value: u32 = 0;
    let mut i: usize = start;
    proof {
        digits_end_bounds(text@, start as int);
    }
    while i < chars.len() && '0' <= chars[i] && chars[i] <= '9'
        invariant
            chars@ == text@,
            0 <= start <= i <= chars.len(),
            i <= digits_end(text@, start as int) <= chars.len(),
            digits_end(text@, i as int) == digits_end(text@, start as int),
            value == decimal_value(text@.subrange(start as int, i as int)),
            value <= u16::MAX,
            text@.len() > 0,
            start == (if text@[0] == '+' && text@.len() > 1 {
                1int
            } else {
                0int
            }),
        decreases chars.len() - i,
    {
        proof {
            assert(text@.subrange(start as int, i + 1).drop_last() =~= text@.subrange(
                start as int,
                i as int,
            ));
            digits_end_bounds(text@, i + 1);
        }
        value = value * 10 + (chars[i] as u32 - '0' as u32);
        i = i + 1;
        if value > 65535 {
            proof {
                decimal_value_grows(
                    text@,
                    start as int,
                    i as int,
                    digits_end(text@, start as int),
                );
            }
            return Err(ParseU16Error::TooLarge);
        }
    }
    if i < chars.len() {
        Err(ParseU16Error::InvalidDigit)
    } else {
        Ok(value as u16)
    }
}

/// The place of the last `:` in `s`, or -1 where there is none.
pub open spec fn last_colon(s: Seq<char>) -> int
    decreases s.len(),
{
    if s.len() == 0 {
        -1
    } else if s.last() == ':' {
        s.len() - 1
    } else {
        last_colon(s.drop_last())
    }
}

/// What stands before and behind the last `:` of `s`.
pub open spec fn split_at_last_colon(s: Seq<char>) -> Option<(Seq<char>, Seq<char>)> {
    let i = last_colon(s);
    if i < 0 {
        None
    } else {
        Some((s.subrange(0, i), s.subrange(i + 1, s.len() as int)))
    }
}

/// The last colon is a colon, and no colon stands behind it.
pub proof fn last_colon_is_last(s: Seq<char>)
    ensures
        -1 <= last_colon(s) < s.len(),
        last_colon(s) >= 0 ==> s[last_colon(s)] == ':',
        forall|j: int| last_colon(s) < j < s.len() ==> s[j] != ':',
    decreases s.len(),
{
    if s.len() > 0 && s.last() != ':' {
        let rest = s.drop_last();
        last_colon_is_last(rest);
        assert forall|j: int| last_colon(s) < j < s.len() implies s[j] != ':' by {
            if j < rest.len() {
                assert(rest[j] == s[j]);
            }
        }
    }
}

/// A tail without a colon is what stands behind the last colon.
pub proof fn split_of_joined(head: Seq<char>, tail: Seq<char>)
    requires
        forall|j: int| 0 <= j < tail.len() ==> tail[j] != ':',
    ensures
        split_at_last_colon(head + seq![':'] + tail) == Some((head, tail)),
{
    let s = head + seq![':'] + tail;
    last_colon_is_last(s);
    assert(s[head.len() as int] == ':');
    assert forall|j: int| head.len() < j < s.len() implies s[j] != ':' by {
        assert(s[j] == tail[j - head.len() - 1]);
    }
    assert(last_colon(s) == head.len());
    assert(s.subrange(0, head.len() as int) =~= head);
    assert(s.subrange(head.len() as int + 1, s.len() as int) =~= tail);
}

/// Splits a text at its last `:`.
pub fn split_last_colon(text: &str) -> (parts: Option<(&str, &str)>)
    ensures
        parts is Some <==> split_at_last_colon(text@) is Some,
        parts matches Some(p) ==> split_at_last_colon(text@) == Some((p.0@, p.1@)),
{
    let chars = chars_of(text);
    let mut end: usize = chars.len();
    assert(text@.subrange(0, end as int) =~= text@);
    while end > 0
        invariant
            chars@ == text@,
            end <= chars.len(),
            last_colon(text@) == last_colon(text@.subrange(0, end as int)),
        decreases end,
    {
        assert(text@.subrange(0, end as int).drop_last() =~= text@.subrange(0, end - 1));
        end = end - 1;
        if chars[end] == ':' {
            return Some((text.substring_char(0, end), text.substring_char(end + 1, chars.len())));
        }
    }
    None
}

/// Whether `s` starts with two hyphens.
pub open spec fn is_flag(s: Seq<char>) -> bool {
    s.len() >= 2 && s[0] == '-' && s[1] == '-'
}

/// Whether a text starts with two hyphens.
pub fn starts_as_flag(text: &str) -> (flag: bool)
    ensures
        flag == is_flag(text@),
{
    text.unicode_len() >= 2 && text.get_char(0) == '-' && text.get_char(1) == '-'
}

/// Whether `c` is an ASCII hexadecimal digit, of either case.
pub open spec fn is_hex_digit(c: char) -> bool {
    '0' <= c <= '9' || 'a' <= c <= 'f' || 'A' <= c <= 'F'
}

/// The value of a hexadecimal digit.
pub open spec fn hex_value(c: char) -> int
    recommends
        is_hex_digit(c),
{
    if '0' <= c <= '9' {
        c as int - '0' as int
    } else if 'a' <= c <= 'f' {
        c as int - 'a' as int + 10
    } else {
        c as int - 'A' as int + 10
    }
}

/// Every character of `s` is a hexadecimal digit.
pub open spec fn all_hex(s: Seq<char>) -> bool {
    forall|i: int| 0 <= i < s.len() ==> is_hex_digit(#[trigger] s[i])
}

/// Whether a text consists of hexadecimal digits alone.
pub fn is_hex(text: &str) -> (hex: bool)
    ensures
        hex == all_hex(text@),
{
    let chars = chars_of(text);
    let mut i: usize = 0;
    while i < chars.len()
        invariant
            chars@ == text@,
            i <= chars.len(),
            forall|j: int| 0 <= j < i ==> is_hex_digit(#[trigger] text@[j]),
        decreases chars.len() - i,
    {
        let c = chars[i];
        if !(('0' <= c && c <= '9') || ('a' <= c && c <= 'f') || ('A' <= c && c <= 'F')) {
            assert(!is_hex_digit(text@[i as int]));
            return false;
        }
        i = i + 1;
    }
    true
}

/// Whether `c` has the Unicode property White_Space.
pub open spec fn is_white_space(c: char) -> bool {
    let code = c as u32;
    ||| 0x9 <= code <= 0xd
    ||| code == 0x20
    ||| code == 0x85
    ||| code == 0xa0
    ||| code == 0x1680
    ||| 0x2000 <= code <= 0x200a
    ||| code == 0x2028
    ||| code == 0x2029
    ||| code == 0x202f
    ||| code == 0x205f
    ||| code == 0x3000
}

/// Whether a character has the Unicode property White_Space.
pub fn white_space(c: char) -> (white: bool)
    ensures
        white == is_white_space(c),
{
    let code: u32 = c as u32;
    (0x9 <= code && code <= 0xd) || code == 0x20 || code == 0x85 || code == 0xa0 || code == 0x1680
        || (0x2000 <= code && code <= 0x200a) || code == 0x2028 || code == 0x2029 || code == 0x202f
        || code == 0x205f || code == 0x3000
}

/// The first place from `i` on that holds no white space; the length of `s`
/// where there is none.
pub open spec fn word_start(s: Seq<char>, i: int) -> int
    decreases s.len() - i,
{
    if i < s.len() && is_white_space(s[i]) {
        word_start(s, i + 1)
    } else {
        i
    }
}

/// The first place from `i` on that holds white space; the length of `s` where
/// there is none.
pub open spec fn word_end(s: Seq<char>, i: int) -> int
    decreases s.len() - i,
{
    if i < s.len() && !is_white_space(s[i]) {
        word_end(s, i + 1)
    } else {
        i
    }
}

proof fn word_start_bounds(s: Seq<char>, i: int)
    requires
        0 <= i <= s.len(),
    ensures
        i <= word_start(s, i) <= s.len(),
        word_start(s, i) < s.len() ==> !is_white_space(s[word_start(s, i)]),
    decreases s.len() - i,
{
    if i < s.len() && is_white_space(s[i]) {
        word_start_bounds(s, i + 1);
    }
}

proof fn word_end_bounds(s: Seq<char>, i: int)
    requires
        0 <= i <= s.len(),
    ensures
        i <= word_end(s, i) <= s.len(),
        i < s.len() && !is_white_space(s[i]) ==> i < word_end(s, i),
    decreases s.len() - i,
{
    if i < s.len() && !is_white_space(s[i]) {
        word_end_bounds(s, i + 1);
    }
}

/// The words of `s` from `i` on: the longest runs of characters that are no
/// white space, from left to right.
pub open spec fn words_from(s: Seq<char>, i: int) -> Seq<Seq<char>>
    decreases s.len() - i,
    when 0 <= i <= s.len()
    via words_from_terminates
{
    let start = word_start(s, i);
    if start >= s.len() {
        Seq::empty()
    } else {
        let end = word_end(s, start);
        seq![s.subrange(start, end)] + words_from(s, end)
    }
}

#[via_fn]
proof fn words_from_terminates(s: Seq<char>, i: int) {
    word_start_bounds(s, i);
    if word_start(s, i) < s.len() {
        word_end_bounds(s, word_start(s, i));
    }
}

/// The words of `s`.
pub open spec fn words(s: Seq<char>) -> Seq<Seq<char>> {
    words_from(s, 0)
}

/// No word is empty.
pub proof fn words_are_not_empty(s: Seq<char>, i: int)
    requires
        0 <= i <= s.len(),
    ensures
        forall|k: int| 0 <= k < words_from(s, i).len() ==> (#[trigger] words_from(s, i)[k]).len() > 0,
    decreases s.len() - i,
{
    let start = word_start(s, i);
    word_start_bounds(s, i);
    if start < s.len() {
        let end = word_end(s, start);
        word_end_bounds(s, start);
        words_are_not_empty(s, end);
        assert forall|k: int| 0 <= k < words_from(s, i).len() implies (#[trigger] words_from(
            s,
            i,
        )[k]).len() > 0 by {
            if k > 0 {
                assert(words_from(s, i)[k] == words_from(s, end)[k - 1]);
            }
        }
    }
}

/// The texts that a sequence of strings holds.
pub open spec fn texts(strings: Seq<String>) -> Seq<Seq<char>> {
    Seq::new(strings.len(), |i: int| strings[i]@)
}

/// The text that an optional string holds.
pub open spec fn text_of(string: Option<String>) -> Option<Seq<char>> {
    match string {
        Some(text) => Some(text@),
        None => None,
    }
}

/// Whether a result holds what it should: the content of a value, or the words of
/// a complaint.
pub open spec fn agrees<T: View>(result: Result<T, String>, exact: Result<T::V, Seq<char>>) -> bool {
    match (result, exact) {
        (Ok(value), Ok(content)) => value@ == content,
        (Err(complaint), Err(words)) => complaint@ == words,
        _ => false,
    }
}

/// Splits a line into its words.
pub fn split_words(line: &str) -> (parts: Vec<String>)
    ensures
        texts(parts@) == words(line@),
{
    let chars = chars_of(line);
    let mut parts: Vec<String> = Vec::new();
    let mut i: usize = 0;
    assert(texts(parts@) + words_from(line@, 0) =~= words(line@));
    loop
        invariant
            chars@ == line@,
            i <= chars.len(),
            texts(parts@) + words_from(line@, i as int) == words(line@),
        ensures
            texts(parts@) == words(line@),
        decreases chars.len() - i,
    {
        let ghost before = i as int;
        while i < chars.len() && white_space(chars[i])
            invariant
                chars@ == line@,
                before <= i <= chars.len(),
                word_start(line@, before) == word_start(line@, i as int),
            decreases chars.len() - i,
        {
            i = i + 1;
        }
        if i == chars.len() {
            assert(words_from(line@, before) =~= Seq::empty());
            assert(texts(parts@) =~= words(line@));
            break;
        }
        let start: usize = i;
        while i < chars.len() && !white_space(chars[i])
            invariant
                chars@ == line@,
                start <= i <= chars.len(),
                word_end(line@, start as int) == word_end(line@, i as int),
            decreases chars.len() - i,
        {
            i = i + 1;
        }
        proof {
            word_end_bounds(line@, start as int);
        }
        let ghost already = parts@;
        parts.push(line.substring_char(start, i).to_owned());
        assert(texts(parts@) =~= texts(already).push(line@.subrange(start as int, i as int)));
        assert(texts(parts@) + words_from(line@, i as int) =~= texts(already) + words_from(
            line@,
            before,
        ));
    }
    parts
}

/// The digits stand for their places: `0` for zero, and each for one more than the
/// digit before it.
pub proof fn digits_count_up(c: char, d: nat)
    ensures
        is_digit(c) ==> digit_value(c) < 10 && digit_char(digit_value(c)) == c,
        d < 10 ==> is_digit(digit_char(d)) && digit_value(digit_char(d)) == d,
        digit_value('0') == 0,
        is_digit(c) && c != '9' ==> digit_value(((c as int) + 1) as char) == digit_value(c) + 1,
        is_digit(c) <==> "0123456789"@.contains(c),
{
    reveal_strlit("0123456789");
    let all = "0123456789"@;
    if is_digit(c) {
        assert(all[c as int - '0' as int] == c);
    }
}

/// One more digit at the end makes a number ten times as large, plus that digit.
pub proof fn one_more_digit(digits: Seq<char>, c: char)
    ensures
        decimal_value(Seq::empty()) == 0,
        decimal_value(digits.push(c)) == 10 * decimal_value(digits) + digit_value(c),
{
    assert(digits.push(c).drop_last() =~= digits);
}

/// The base-ten form of a number has no digit to spare: zero alone starts with a zero.
pub proof fn decimal_has_no_leading_zero(n: nat)
    ensures
        decimal(n).len() > 0,
        n > 0 ==> decimal(n)[0] != '0',
        n < 10 ==> decimal(n).len() == 1,
    decreases n,
{
    if n >= 10 {
        decimal_has_no_leading_zero(n / 10);
        assert(decimal(n)[0] == decimal(n / 10)[0]);
    }
}

/// Different numbers have different base-ten forms.
pub proof fn decimals_tell_numbers_apart(a: nat, b: nat)
    requires
        decimal(a) == decimal(b),
    ensures
        a == b,
{
    decimal_reads_back(a);
    decimal_reads_back(b);
}

/// `s` without one leading `+`, unless that is all there is.
pub open spec fn unsigned(s: Seq<char>) -> Seq<char> {
    if s.len() > 1 && s[0] == '+' {
        s.skip(1)
    } else {
        s
    }
}

/// A text is read as a `u16` exactly if it is digits alone, but for one leading `+`,
/// and they denote a number that fits; the number is the one that they denote. It is
/// too large exactly if digits at its start already denote more than fits.
pub proof fn u16_is_what_the_digits_denote(s: Seq<char>, n: u16)
    ensures
        u16_of(s) == Ok::<u16, ParseU16Error>(n) <==> unsigned(s).len() > 0 && all_digits(
            unsigned(s),
        ) && decimal_value(unsigned(s)) == n,
        u16_of(s) == Err::<u16, ParseU16Error>(ParseU16Error::Empty) <==> s.len() == 0,
        u16_of(s) == Err::<u16, ParseU16Error>(ParseU16Error::TooLarge) <==> exists|k: int|
            0 <= k <= unsigned(s).len() && all_digits(#[trigger] unsigned(s).take(k))
                && decimal_value(unsigned(s).take(k)) > u16::MAX,
{
    if s.len() > 0 {
        let start: int = if s[0] == '+' && s.len() > 1 {
            1
        } else {
            0
        };
        let t = unsigned(s);
        assert(t =~= s.skip(start));
        let end = digits_end(s, start);
        digits_end_bounds(s, start);
        let run = s.subrange(start, end);
        assert(run =~= t.take(end - start));
        if end == s.len() {
            assert(run =~= t);
        } else {
            digits_end_stops(s, start);
            assert(t[end - start] == s[end]);
            assert(!is_digit(t[end - start]));
        }
        if u16_of(s) is Err && u16_of(s)->Err_0 == ParseU16Error::TooLarge {
            assert(all_digits(t.take(end - start)));
        }
        assert forall|k: int|
            0 <= k <= t.len() && all_digits(#[trigger] t.take(k)) && decimal_value(t.take(k))
                > u16::MAX implies decimal_value(run) > u16::MAX by {
            if k > end - start {
                assert(t.take(k)[end - start] == t[end - start]);
                assert(is_digit(t.take(k)[end - start]));
            }
            assert(s.subrange(start, start + k) =~= t.take(k));
            decimal_value_grows(s, start, start + k, end);
        }
    } else {
        assert(decimal_value(Seq::<char>::empty()) == 0);
        assert forall|k: int| 0 <= k <= unsigned(s).len() implies decimal_value(
            #[trigger] unsigned(s).take(k),
        ) == 0 by {
            assert(unsigned(s).take(k) =~= Seq::empty());
        }
    }
}

/// A run of digits ends at the end of the text or before something else.
proof fn digits_end_stops(s: Seq<char>, i: int)
    requires
        0 <= i <= s.len(),
    ensures
        digits_end(s, i) < s.len() ==> !is_digit(s[digits_end(s, i)]),
    decreases s.len() - i,
{
    if i < s.len() && is_digit(s[i]) {
        digits_end_stops(s, i + 1);
    }
}

/// Splitting at the last colon loses nothing: both parts with a colon between them
/// are the text, and no colon is left in the second. A text that is not split has
/// no colon.
pub proof fn split_joins_back(s: Seq<char>)
    ensures
        split_at_last_colon(s) matches Some((head, tail)) ==> s == head + seq![':'] + tail
            && !tail.contains(':'),
        split_at_last_colon(s) is None <==> !s.contains(':'),
{
    last_colon_is_last(s);
    let i = last_colon(s);
    if i >= 0 {
        let (head, tail) = split_at_last_colon(s)->0;
        assert(s =~= head + seq![':'] + tail);
        assert forall|j: int| 0 <= j < tail.len() implies tail[j] != ':' by {
            assert(tail[j] == s[i + 1 + j]);
        }
        assert(s.contains(s[i]));
    } else if s.contains(':') {
        let j = choose|j: int| 0 <= j < s.len() && s[j] == ':';
        assert(s[j] != ':');
    }
}

/// A flag is two hyphens and whatever follows.
pub proof fn flags_are_two_hyphens_and_more(s: Seq<char>)
    ensures
        is_flag("--"@ + s),
        is_flag(s) ==> s == "--"@ + s.skip(2),
{
    reveal_strlit("--");
    if is_flag(s) {
        assert(s =~= "--"@ + s.skip(2));
    }
}

/// The hexadecimal digits, in both cases, stand for their places.
pub proof fn hex_digits_stand_for_their_places(c: char, i: int)
    ensures
        is_hex_digit(c) <==> "0123456789abcdef"@.contains(c) || "0123456789ABCDEF"@.contains(c),
        0 <= i < 16 ==> hex_value("0123456789abcdef"@[i]) == i && hex_value(
            "0123456789ABCDEF"@[i],
        ) == i,
{
    reveal_strlit("0123456789abcdef");
    reveal_strlit("0123456789ABCDEF");
    if is_hex_digit(c) {
        assert("0123456789abcdef"@[hex_value(c)] == c || "0123456789ABCDEF"@[hex_value(c)] == c);
    }
}

/// Whether all of `s` is white space.
pub open spec fn is_blank(s: Seq<char>) -> bool {
    forall|i: int| 0 <= i < s.len() ==> is_white_space(#[trigger] s[i])
}

/// Whether no white space is in `s`.
pub open spec fn is_solid(s: Seq<char>) -> bool {
    forall|i: int| 0 <= i < s.len() ==> !is_white_space(#[trigger] s[i])
}

proof fn word_start_is_shifted(s: Seq<char>, t: Seq<char>, by: int, i: int)
    requires
        0 <= by <= s.len(),
        t == s.skip(by),
        0 <= i <= t.len(),
    ensures
        word_start(s, by + i) == by + word_start(t, i),
    decreases t.len() - i,
{
    if i < t.len() && is_white_space(t[i]) {
        word_start_is_shifted(s, t, by, i + 1);
    }
}

proof fn word_end_is_shifted(s: Seq<char>, t: Seq<char>, by: int, i: int)
    requires
        0 <= by <= s.len(),
        t == s.skip(by),
        0 <= i <= t.len(),
    ensures
        word_end(s, by + i) == by + word_end(t, i),
    decreases t.len() - i,
{
    if i < t.len() && !is_white_space(t[i]) {
        word_end_is_shifted(s, t, by, i + 1);
    }
}

proof fn words_are_shifted(s: Seq<char>, t: Seq<char>, by: int, i: int)
    requires
        0 <= by <= s.len(),
        t == s.skip(by),
        0 <= i <= t.len(),
    ensures
        words_from(s, by + i) == words_from(t, i),
    decreases t.len() - i,
{
    word_start_is_shifted(s, t, by, i);
    word_start_bounds(t, i);
    let start = word_start(t, i);
    if start < t.len() {
        word_end_is_shifted(s, t, by, start);
        word_end_bounds(t, start);
        let end = word_end(t, start);
        words_are_shifted(s, t, by, end);
        assert(s.subrange(by + start, by + end) =~= t.subrange(start, end));
    }
}

/// White space has no words; leading white space adds none.
pub proof fn blank_text_has_no_words(blank: Seq<char>, s: Seq<char>)
    requires
        is_blank(blank),
    ensures
        words(blank) == Seq::<Seq<char>>::empty(),
        words(blank + s) == words(s),
{
    blank_start(blank, Seq::empty(), 0);
    assert(blank + Seq::<char>::empty() =~= blank);
    blank_start(blank, s, 0);
    let both = blank + s;
    assert(both.skip(blank.len() as int) =~= s);
    words_are_shifted(both, s, blank.len() as int, 0);
    word_start_bounds(s, 0);
    word_start_is_shifted(both, s, blank.len() as int, 0);
}

proof fn blank_start(blank: Seq<char>, s: Seq<char>, i: int)
    requires
        is_blank(blank),
        0 <= i <= blank.len(),
    ensures
        word_start(blank + s, i) == word_start(blank + s, blank.len() as int),
    decreases blank.len() - i,
{
    if i < blank.len() {
        assert((blank + s)[i] == blank[i]);
        blank_start(blank, s, i + 1);
    }
}

proof fn solid_end(word: Seq<char>, s: Seq<char>, i: int)
    requires
        is_solid(word),
        0 <= i <= word.len(),
        s.len() > 0 ==> is_white_space(s[0]),
    ensures
        word_end(word + s, i) == word.len(),
    decreases word.len() - i,
{
    if i < word.len() {
        assert((word + s)[i] == word[i]);
        solid_end(word, s, i + 1);
    } else if s.len() > 0 {
        assert((word + s)[i] == s[0]);
    }
}

/// A text that starts with a word, ended by white space or by the end of the text, has
/// that word, whole, and then the words behind it.
pub proof fn first_word_comes_first(word: Seq<char>, s: Seq<char>)
    requires
        word.len() > 0,
        is_solid(word),
        s.len() > 0 ==> is_white_space(s[0]),
    ensures
        words(word + s) == seq![word] + words(s),
{
    let both = word + s;
    assert(both[0] == word[0]);
    assert(!is_white_space(both[0]));
    assert(word_start(both, 0) == 0);
    solid_end(word, s, 0);
    assert(both.subrange(0, word.len() as int) =~= word);
    assert(both.skip(word.len() as int) =~= s);
    words_are_shifted(both, s, word.len() as int, 0);
}

/// Every word is solid, and its characters are of the text.
pub proof fn words_are_solid(s: Seq<char>, i: int)
    requires
        0 <= i <= s.len(),
    ensures
        forall|k: int| 0 <= k < words_from(s, i).len() ==> is_solid(#[trigger] words_from(s, i)[k]),
    decreases s.len() - i,
{
    let start = word_start(s, i);
    word_start_bounds(s, i);
    if start < s.len() {
        let end = word_end(s, start);
        word_end_bounds(s, start);
        word_end_is_solid(s, start);
        words_are_solid(s, end);
        assert forall|k: int| 0 <= k < words_from(s, i).len() implies is_solid(
            #[trigger] words_from(s, i)[k],
        ) by {
            if k > 0 {
                assert(words_from(s, i)[k] == words_from(s, end)[k - 1]);
            }
        }
    }
}

proof fn word_end_is_solid(s: Seq<char>, i: int)
    requires
        0 <= i <= s.len(),
    ensures
        is_solid(s.subrange(i, word_end(s, i))),
    decreases s.len() - i,
{
    word_end_bounds(s, i);
    if i < s.len() && !is_white_space(s[i]) {
        word_end_is_solid(s, i + 1);
        let rest = s.subrange(i + 1, word_end(s, i));
        let all = s.subrange(i, word_end(s, i));
        assert forall|k: int| 0 <= k < all.len() implies !is_white_space(#[trigger] all[k]) by {
            if k > 0 {
                assert(all[k] == rest[k - 1]);
            }
        }
    }
}

/// The texts of strings are one for one, in order and whole.
pub proof fn texts_are_one_for_one(strings: Seq<String>, i: int, string: Option<String>)
    ensures
        texts(strings).len() == strings.len(),
        0 <= i < strings.len() ==> texts(strings)[i] == strings[i]@,
        string is Some <==> text_of(string) is Some,
        string matches Some(s) ==> text_of(string) == Some(s@),
{
}

/// A result agrees with nothing but its own content: the value that it holds, or the
/// very words of its complaint.
pub proof fn agreement_is_exact<T: View>(result: Result<T, String>, exact: Result<T::V, Seq<char>>)
    requires
        agrees(result, exact),
    ensures
        result matches Ok(value) ==> exact == Ok::<T::V, Seq<char>>(value@),
        result matches Err(complaint) ==> exact == Err::<T::V, Seq<char>>(complaint@),
{
}

/// Digits alone, or hexadecimal digits alone, is what a text is made of that has them
/// at every place: it holds of a text exactly if it holds of both its parts.
pub proof fn runs_are_made_of_runs(a: Seq<char>, b: Seq<char>, c: char)
    ensures
        all_digits(Seq::empty()) && all_hex(Seq::empty()),
        all_digits(a.push(c)) <==> all_digits(a) && is_digit(c),
        all_hex(a.push(c)) <==> all_hex(a) && is_hex_digit(c),
        all_hex(a + b) <==> all_hex(a) && all_hex(b),
        is_solid(a.push(c)) <==> is_solid(a) && !is_white_space(c),
        is_blank(a.push(c)) <==> is_blank(a) && is_white_space(c),
{
    let more = a.push(c);
    assert(more.drop_last() =~= a && more[a.len() as int] == c);
    assert forall|i: int| 0 <= i < a.len() implies more[i] == a[i] by {}
    if all_digits(more) {
        assert forall|i: int| 0 <= i < a.len() implies is_digit(#[trigger] a[i]) by {
            assert(is_digit(more[i]));
        }
    }
    if all_hex(more) {
        assert forall|i: int| 0 <= i < a.len() implies is_hex_digit(#[trigger] a[i]) by {
            assert(is_hex_digit(more[i]));
        }
    }
    if is_solid(more) {
        assert forall|i: int| 0 <= i < a.len() implies !is_white_space(#[trigger] a[i]) by {
            assert(!is_white_space(more[i]));
        }
    }
    if is_blank(more) {
        assert forall|i: int| 0 <= i < a.len() implies is_white_space(#[trigger] a[i]) by {
            assert(is_white_space(more[i]));
        }
    }
    let both = a + b;
    if all_hex(both) {
        assert forall|i: int| 0 <= i < a.len() implies is_hex_digit(#[trigger] a[i]) by {
            assert(is_hex_digit(both[i]));
        }
        assert forall|i: int| 0 <= i < b.len() implies is_hex_digit(#[trigger] b[i]) by {
            assert(is_hex_digit(both[a.len() + i]));
        }
    }
}

} // verus!
