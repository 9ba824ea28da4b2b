//! Text handling: decimal numbers, white space, and the search for a character.
use vstd::prelude::*;

verus! {

/// The character that stands for the digit `d`.
pub open spec fn digit_char(d: int) -> char
    recommends
        0 <= d < 10,
{
    ('0' as int + d) as char
}

/// `n` in decimal, without leading zeros.
pub open spec fn decimal(n: nat) -> Seq<char>
    decreases n,
{
    if n < 10 {
        seq![digit_char(n as int)]
    } else {
        decimal(n / 10).push(digit_char(n as int % 10))
    }
}

/// `n` in decimal, with a minus sign where it is negative.
pub open spec fn signed_decimal(n: int) -> Seq<char> {
    if n < 0 {
        seq!['-'] + decimal((-n) as nat)
    } else {
        decimal(n as nat)
    }
}

pub open spec fn is_digit(c: char) -> bool {
    '0' <= c <= '9'
}

pub open spec fn all_digits(s: Seq<char>) -> bool {
    forall|i: int| 0 <= i < s.len() ==> is_digit(#[trigger] s[i])
}

/// The number that a row of digits writes, the most significant one first.
pub open spec fn digits_value(s: Seq<char>) -> nat
    decreases s.len(),
{
    if s.len() == 0 {
        0
    } else {
        (10 * digits_value(s.drop_last()) + (s.last() as int - '0' as int)) as nat
    }
}

/// The integer that `s` writes: digits, at least one, behind at most one sign. It has to
/// fit in 64 bits.
pub open spec fn signed_value(s: Seq<char>) -> Option<int> {
    let negative = s.len() > 0 && s[0] == '-';
    let signed = negative || (s.len() > 0 && s[0] == '+');
    let digits = if signed {
        s.skip(1)
    } else {
        s
    };
    let value: int = if negative {
        -(digits_value(digits) as int)
    } else {
        digits_value(digits) as int
    };
    if digits.len() > 0 && all_digits(digits) && i64::MIN <= value <= i64::MAX {
        Some(value)
    } else {
        None
    }
}

/// The Unicode property `White_Space`.
pub open spec fn white_space(c: char) -> bool {
    ||| '\u{9}' <= c <= '\u{d}'
    ||| c == ' '
    ||| c == '\u{85}'
    ||| c == '\u{a0}'
    ||| c == '\u{1680}'
    ||| '\u{2000}' <= c <= '\u{200a}'
    ||| c == '\u{2028}'
    ||| c == '\u{2029}'
    ||| c == '\u{202f}'
    ||| c == '\u{205f}'
    ||| c == '\u{3000}'
}

pub open spec fn trim_start(s: Seq<char>) -> Seq<char>
    decreases s.len(),
{
    if s.len() > 0 && white_space(s[0]) {
        trim_start(s.skip(1))
    } else {
        s
    }
}

pub open spec fn trim_end(s: Seq<char>) -> Seq<char>
    decreases s.len(),
{
    if s.len() > 0 && white_space(s.last()) {
        trim_end(s.drop_last())
    } else {
        s
    }
}

/// `s` without the white space at its two ends.
pub open spec fn trimmed(s: Seq<char>) -> Seq<char> {
    trim_end(trim_start(s))
}

/// How many characters stand before the first `c` in `s`; all of them where there is none.
pub open spec fn position(s: Seq<char>, c: char) -> nat
    decreases s.len(),
{
    if s.len() == 0 || s[0] == c {
        0
    } else {
        1 + position(s.skip(1), c)
    }
}

/// `position` is the only index with no `c` before it and a `c` or the end at it.
pub proof fn lemma_position(s: Seq<char>, c: char, i: int)
    requires
        0 <= i <= s.len(),
        forall|k: int| 0 <= k < i ==> s[k] != c,
        i < s.len() ==> s[i] == c,
    ensures
        position(s, c) == i,
    decreases s.len(),
{
    if i > 0 {
        let rest = s.skip(1);
        assert forall|k: int| 0 <= k < i - 1 implies rest[k] != c by {
            assert(rest[k] == s[k + 1]);
        }
        lemma_position(rest, c, i - 1);
    }
}

/// Trimming leaves the stretch between the first and the last character that is no white
/// space.
proof fn lemma_trimmed(s: Seq<char>, from: int, to: int)
    requires
        0 <= from <= to <= s.len(),
        forall|k: int| 0 <= k < from ==> white_space(s[k]),
        from < s.len() ==> !white_space(s[from]),
        from == s.len() ==> to == from,
        forall|k: int| to <= k < s.len() ==> white_space(s[k]),
        from < to ==> !white_space(s[to - 1]),
        from < s.len() ==> from < to,
    ensures
        trimmed(s) == s.subrange(from, to),
{
    lemma_trim_start(s, from);
    let rest = s.skip(from);
    lemma_trim_end(rest, to - from);
    assert(rest.take(to - from) =~= s.subrange(from, to));
}

proof fn lemma_trim_start(s: Seq<char>, from: int)
    requires
        0 <= from <= s.len(),
        forall|k: int| 0 <= k < from ==> white_space(s[k]),
        from < s.len() ==> !white_space(s[from]),
    ensures
        trim_start(s) == s.skip(from),
    decreases s.len(),
{
    if from == 0 {
        assert(s.skip(0) =~= s);
    } else {
        let rest = s.skip(1);
        assert forall|k: int| 0 <= k < from - 1 implies white_space(rest[k]) by {
            assert(rest[k] == s[k + 1]);
        }
        lemma_trim_start(rest, from - 1);
        assert(rest.skip(from - 1) =~= s.skip(from));
    }
}

proof fn lemma_trim_end(s: Seq<char>, to: int)
    requires
        0 <= to <= s.len(),
        forall|k: int| to <= k < s.len() ==> white_space(s[k]),
        to > 0 ==> !white_space(s[to - 1]),
    ensures
        trim_end(s) == s.take(to),
    decreases s.len(),
{
    if to == s.len() {
        assert(s.take(to) =~= s);
    } else {
        let rest = s.drop_last();
        assert forall|k: int| to <= k < rest.len() implies white_space(rest[k]) by {
            assert(rest[k] == s[k]);
        }
        lemma_trim_end(rest, to);
        assert(rest.take(to) =~= s.take(to));
    }
}

/// The value never falls as digits are added.
proof fn lemma_digits_value_grows(s: Seq<char>, n: int)
    requires
        0 <= n <= s.len(),
        all_digits(s),
    ensures
        digits_value(s.take(n)) <= digits_value(s),
    decreases s.len(),
{
    if n == s.len() {
        assert(s.take(n) =~= s);
    } else {
        let rest = s.drop_last();
        assert forall|i: int| 0 <= i < rest.len() implies is_digit(#[trigger] rest[i]) by {
            assert(rest[i] == s[i]);
        }
        lemma_digits_value_grows(rest, n);
        assert(rest.take(n) =~= s.take(n));
        assert(is_digit(s[s.len() - 1]));
    }
}

/// A decimal text is made of digits, and its value is the number it was made from.
pub proof fn lemma_decimal_value(n: nat)
    ensures
        decimal(n).len() > 0,
        all_digits(decimal(n)),
        digits_value(decimal(n)) == n,
    decreases n,
{
    reveal_with_fuel(digits_value, 2);
    let s = decimal(n);
    if n < 10 {
        assert(s.drop_last() =~= Seq::<char>::empty());
    } else {
        lemma_decimal_value(n / 10);
        assert(s.drop_last() =~= decimal(n / 10));
        assert forall|i: int| 0 <= i < s.len() implies is_digit(#[trigger] s[i]) by {
            if i < s.len() - 1 {
                assert(s[i] == decimal(n / 10)[i]);
            }
        }
    }
}

/// Reading back a written integer gives the integer.
pub proof fn law_signed_decimal_reads_back(n: i64)
    ensures
        signed_value(signed_decimal(n as int)) == Some(n as int),
{
    let s = signed_decimal(n as int);
    if n < 0 {
        lemma_decimal_value((-n) as nat);
        assert(s.skip(1) =~= decimal((-n) as nat));
    } else {
        lemma_decimal_value(n as nat);
        assert(is_digit(s[0]));
    }
}

/// Writes a number in decimal.
pub fn decimal_text(n: u64) -> (text: String)
    ensures
        text@ == decimal(n as nat),
    decreases n,
{
    let mut text = if n < 10 {
        String::new()
    } else {
        decimal_text(n / 10)
    };
    let ghost before = text@;
    text.append(digit_text((n % 10) as u8));
    assert(text@ =~= before.push(digit_char(n as int % 10)));
    proof {
        if n < 10 {
            assert(text@ =~= seq![digit_char(n as int)]);
        }
    }
    text
}

fn digit_text(d: u8) -> (text: &'static str)
    requires
        d < 10,
    ensures
        text@ == seq![digit_char(d as int)],
{
    proof {
        reveal_strlit("0");
        reveal_strlit("1");
        reveal_strlit("2");
        reveal_strlit("3");
        reveal_strlit("4");
        reveal_strlit("5");
        reveal_strlit("6");
        reveal_strlit("7");
        reveal_strlit("8");
        reveal_strlit("9");
    }
    let text = match d {
        0 => "0",
        1 => "1",
        2 => "2",
        3 => "3",
        4 => "4",
        5 => "5",
        6 => "6",
        7 => "7",
        8 => "8",
        _ => "9",
    };
    assert(text@ =~= seq![digit_char(d as int)]);
    text
}

/// Writes a signed number in decimal.
pub fn signed_decimal_text(n: i64) -> (text: String)
    ensures
        text@ == signed_decimal(n as int),
{
    if n < 0 {
        let mut text = String::new();
        text.append("-");
        proof {
            reveal_strlit("-");
        }
        let magnitude = decimal_text((-(n as i128)) as u64);
        text.append(magnitude.as_str());
        assert(text@ =~= signed_decimal(n as int));
        text
    } else {
        decimal_text(n as u64)
    }
}

/// The characters of `s`, one by one.
pub fn chars_of(s: &str) -> (chars: Vec<char>)
    ensures
        chars@ == s@,
{
    let mut chars: Vec<char> = Vec::new();
    for c in it: s.chars()
        invariant
            it.seq() == s@,
            chars@ == s@.take(it.index() as int),
    {
        chars.push(c);
    }
    chars
}

/// Reads a signed 64-bit integer in decimal.
pub fn parse_i64(s: &str) -> (n: Option<i64>)
    ensures
        match n {
            Some(v) => signed_value(s@) == Some(v as int),
            None => signed_value(s@) is None,
        },
{
    let chars = chars_of(s);
    let negative = chars.len() > 0 && chars[0] == '-';
    let signed = negative || (chars.len() > 0 && chars[0] == '+');
    let start: usize = if signed {
        1
    } else {
        0
    };
    let ghost digits = s@.skip(start as int);
    assert(!signed ==> digits =~= s@);
    if chars.len() == start {
        return None;
    }
    let limit: u128 = 0x8000_0000_0000_0000;
    let mut value: u128 = 0;
    let mut i: usize = start;
    while i < chars.len()
        invariant
            start <= i <= chars.len(),
            start <= 1,
            limit == 0x8000_0000_0000_0000,
            chars@ == s@,
            digits == s@.skip(start as int),
            value <= limit,
            value == digits_value(digits.take(i - start)),
            all_digits(digits.take(i - start)),
            signed == (negative || (s@.len() > 0 && s@[0] == '+')),
            negative == (s@.len() > 0 && s@[0] == '-'),
            start == (if signed {
                1int
            } else {
                0int
            }),
            !signed ==> digits == s@,
        decreases chars.len() - i,
    {
        let c = chars[i];
        let ghost prefix = digits.take(i - start);
        let ghost longer = digits.take(i - start + 1);
        assert(longer.drop_last() =~= prefix);
        assert(longer.last() == c);
        if c < '0' || c > '9' {
            assert(digits[i - start] == c);
            return None;
        }
        value = value * 10 + (c as u32 - '0' as u32) as u128;
        assert(all_digits(longer)) by {
            assert forall|k: int| 0 <= k < longer.len() implies is_digit(#[trigger] longer[k]) by {
                if k < i - start {
                    assert(longer[k] == prefix[k]);
                }
            }
        }
        if value > limit {
            proof {
                if all_digits(digits) {
                    lemma_digits_value_grows(digits, i - start + 1);
                }
            }
            return None;
        }
        i += 1;
    }
    assert(digits.take(i - start) =~= digits);
    if negative {
        Some((-(value as i128)) as i64)
    } else if value < limit {
        Some(value as i64)
    } else {
        None
    }
}

/// Whether `c` is white space.
pub fn is_white_space(c: char) -> (r: bool)
    ensures
        r == white_space(c),
{
    ('\u{9}' <= c && c <= '\u{d}') || c == ' ' || c == '\u{85}' || c == '\u{a0}' || c == '\u{1680}'
        || ('\u{2000}' <= c && c <= '\u{200a}') || c == '\u{2028}' || c == '\u{2029}' || c
        == '\u{202f}' || c == '\u{205f}' || c == '\u{3000}'
}

/// `s` without the white space at its two ends.
pub fn trim(s: &str) -> (text: String)
    ensures
        text@ == trimmed(s@),
{
    let chars = chars_of(s);
    let mut from: usize = 0;
    while from < chars.len() && is_white_space(chars[from])
        invariant
            from <= chars.len(),
            forall|k: int| 0 <= k < from ==> white_space(chars@[k]),
        decreases chars.len() - from,
    {
        from += 1;
    }
    let mut to: usize = chars.len();
    while to > from && is_white_space(chars[to - 1])
        invariant
            from <= to <= chars.len(),
            forall|k: int| to <= k < chars.len() ==> white_space(chars@[k]),
        decreases to,
    {
        to -= 1;
    }
    proof {
        if from < chars.len() && from == to {
            assert(white_space(chars@[from as int]));
        }
        lemma_trimmed(s@, from as int, to as int);
    }
    s.substring_char(from, to).to_owned()
}

/// Where the first `c` stands in `s`, counted in characters; the length where there is none.
pub fn find_char(s: &str, c: char) -> (at: usize)
    ensures
        at == position(s@, c),
        at <= s@.len(),
{
    let chars = chars_of(s);
    let mut at: usize = 0;
    while at < chars.len() && chars[at] != c
        invariant
            at <= chars.len(),
            forall|k: int| 0 <= k < at ==> chars@[k] != c,
        decreases chars.len() - at,
    {
        at += 1;
    }
    proof {
        lemma_position(s@, c, at as int);
    }
    at
}

/// A number is written with its last digit last, behind the text of the tenth of it; a
/// number below ten is one digit.
pub proof fn law_digits_stand_in_their_order(n: nat)
    ensures
        decimal(n).len() > 0,
        decimal(n).last() as int == 48 + n % 10,
        n < 10 ==> decimal(n).len() == 1,
        n >= 10 ==> decimal(n).drop_last() == decimal(n / 10),
{
    if n >= 10 {
        assert(decimal(n).drop_last() =~= decimal(n / 10));
    }
}

/// Only a minus sign tells a negative number from its opposite.
pub proof fn law_sign_stands_in_front(n: nat)
    ensures
        signed_decimal(n as int) == decimal(n),
        n > 0 ==> signed_decimal(-n) == seq!['-'] + decimal(n),
{
}

/// What is written as a number is read as the number, with a sign or without, as long as it
/// fits in 64 bits; otherwise it is not read at all.
pub proof fn law_written_number_is_read(n: nat)
    ensures
        signed_value(decimal(n)) == (if n <= 0x7fff_ffff_ffff_ffff {
            Some(n as int)
        } else {
            None
        }),
        signed_value(seq!['+'] + decimal(n)) == (if n <= 0x7fff_ffff_ffff_ffff {
            Some(n as int)
        } else {
            None
        }),
        signed_value(seq!['-'] + decimal(n)) == (if n <= 0x8000_0000_0000_0000 {
            Some(-n)
        } else {
            None
        }),
{
    let s = decimal(n);
    lemma_decimal_value(n);
    assert(is_digit(s[0]));
    assert((seq!['+'] + s).skip(1) =~= s);
    assert((seq!['-'] + s).skip(1) =~= s);
}

/// Zeros in front of a number change nothing.
pub proof fn law_leading_zero_changes_nothing(s: Seq<char>)
    requires
        s.len() > 0,
        '0' <= s[0] <= '9',
    ensures
        signed_value(seq!['0'] + s) == signed_value(s),
        signed_value(seq!['+', '0'] + s) == signed_value(seq!['+'] + s),
        signed_value(seq!['-', '0'] + s) == signed_value(seq!['-'] + s),
{
    let longer = seq!['0'] + s;
    lemma_leading_zero(s);
    assert((seq!['+', '0'] + s).skip(1) =~= longer);
    assert((seq!['-', '0'] + s).skip(1) =~= longer);
    assert((seq!['+'] + s).skip(1) =~= s);
    assert((seq!['-'] + s).skip(1) =~= s);
    assert forall|i: int| 0 <= i < s.len() implies s[i] == longer[i + 1] by {}
    if all_digits(longer) {
        assert forall|i: int| 0 <= i < s.len() implies is_digit(#[trigger] s[i]) by {
            assert(is_digit(longer[i + 1]));
        }
    }
    if all_digits(s) {
        assert forall|i: int| 0 <= i < longer.len() implies is_digit(#[trigger] longer[i]) by {
            if i > 0 {
                assert(is_digit(s[i - 1]));
            }
        }
    }
}

proof fn lemma_leading_zero(s: Seq<char>)
    ensures
        digits_value(seq!['0'] + s) == digits_value(s),
    decreases s.len(),
{
    let longer = seq!['0'] + s;
    if s.len() == 0 {
        assert(longer.drop_last() =~= Seq::<char>::empty());
        assert(digits_value(longer.drop_last()) == 0);
    } else {
        lemma_leading_zero(s.drop_last());
        assert(longer.drop_last() =~= seq!['0'] + s.drop_last());
        assert(longer.last() == s.last());
    }
}

/// Only digits behind at most one sign are read as a number, and only if there are some.
pub proof fn law_other_text_is_no_number(s: Seq<char>, i: int)
    requires
        ({
            ||| s.len() == 0
            ||| s == seq!['+']
            ||| s == seq!['-']
            ||| 0 < i < s.len() && !('0' <= s[i] <= '9')
            ||| s.len() > 0 && !('0' <= s[0] <= '9') && s[0] != '+' && s[0] != '-'
        }),
    ensures
        signed_value(s) is None,
{
    if s.len() > 0 {
        let digits = s.skip(1);
        if 0 < i < s.len() && !('0' <= s[i] <= '9') {
            assert(digits[i - 1] == s[i]);
            assert(!is_digit(digits[i - 1]));
            assert(!all_digits(digits));
            assert(!is_digit(s[i]));
            assert(!all_digits(s));
        } else if s.len() > 1 {
            assert(!is_digit(s[0]));
        }
    }
}

/// A number that is written out is parsed back as itself, with a sign or without.
pub proof fn law_number_is_parsed_back(
    unsigned: u64,
    signed: i64,
    unsigned_text: String,
    signed_text: String,
    of_unsigned: &str,
    of_signed: &str,
    parsed_unsigned: Option<i64>,
    parsed_signed: Option<i64>,
)
    requires
        call_ensures(decimal_text, (unsigned,), unsigned_text),
        call_ensures(signed_decimal_text, (signed,), signed_text),
        of_unsigned@ == unsigned_text@,
        of_signed@ == signed_text@,
        call_ensures(parse_i64, (of_unsigned,), parsed_unsigned),
        call_ensures(parse_i64, (of_signed,), parsed_signed),
    ensures
        parsed_unsigned == (if unsigned <= 0x7fff_ffff_ffff_ffff {
            Some(unsigned as i64)
        } else {
            None
        }),
        parsed_signed == Some(signed),
{
    law_written_number_is_read(unsigned as nat);
    law_signed_decimal_reads_back(signed);
}

/// The characters that are white space.
pub proof fn law_white_space(c: char)
    ensures
        white_space(c) <==> seq![
            0x9int,
            0xa,
            0xb,
            0xc,
            0xd,
            0x20,
            0x85,
            0xa0,
            0x1680,
            0x2000,
            0x2001,
            0x2002,
            0x2003,
            0x2004,
            0x2005,
            0x2006,
            0x2007,
            0x2008,
            0x2009,
            0x200a,
            0x2028,
            0x2029,
            0x202f,
            0x205f,
            0x3000,
        ].contains(c as int),
{
    let all = seq![
        0x9int,
        0xa,
        0xb,
        0xc,
        0xd,
        0x20,
        0x85,
        0xa0,
        0x1680,
        0x2000,
        0x2001,
        0x2002,
        0x2003,
        0x2004,
        0x2005,
        0x2006,
        0x2007,
        0x2008,
        0x2009,
        0x200a,
        0x2028,
        0x2029,
        0x202f,
        0x205f,
        0x3000,
    ];
    if white_space(c) {
        let i: int = if c as int <= 0xd {
            c as int - 0x9
        } else if c == ' ' {
            5
        } else if c == '\u{85}' {
            6
        } else if c == '\u{a0}' {
            7
        } else if c == '\u{1680}' {
            8
        } else if c as int <= 0x200a {
            c as int - 0x2000 + 9
        } else if c == '\u{2028}' {
            20
        } else if c == '\u{2029}' {
            21
        } else if c == '\u{202f}' {
            22
        } else if c == '\u{205f}' {
            23
        } else {
            24
        };
        assert(all[i] == c as int);
    }
}

/// Trimming takes the white space off the two ends, all of it and nothing else.
pub proof fn law_only_white_space_is_trimmed(before: Seq<char>, kept: Seq<char>, after: Seq<char>)
    requires
        forall|i: int| 0 <= i < before.len() ==> white_space(#[trigger] before[i]),
        forall|i: int| 0 <= i < after.len() ==> white_space(#[trigger] after[i]),
        kept.len() > 0 ==> !white_space(kept[0]) && !white_space(kept.last()),
    ensures
        trimmed(before + kept + after) == kept,
{
    let s = before + kept + after;
    if kept.len() == 0 {
        assert forall|k: int| 0 <= k < s.len() implies white_space(s[k]) by {
            if k < before.len() {
                assert(s[k] == before[k]);
            } else {
                assert(s[k] == after[k - before.len()]);
            }
        }
        lemma_trimmed(s, s.len() as int, s.len() as int);
        assert(s.subrange(s.len() as int, s.len() as int) =~= kept);
    } else {
        let from = before.len() as int;
        let to = from + kept.len();
        assert forall|k: int| 0 <= k < from implies white_space(s[k]) by {
            assert(s[k] == before[k]);
        }
        assert forall|k: int| to <= k < s.len() implies white_space(s[k]) by {
            assert(s[k] == after[k - to]);
        }
        lemma_trimmed(s, from, to);
        assert(s.subrange(from, to) =~= kept);
    }
}

/// A character is found at its first place, and at the end where it has none.
pub proof fn law_first_place_is_found(before: Seq<char>, c: char, rest: Seq<char>)
    requires
        !before.contains(c),
    ensures
        position(before, c) == before.len(),
        position(before + seq![c] + rest, c) == before.len(),
{
    lemma_position(before, c, before.len() as int);
    lemma_position(before + seq![c] + rest, c, before.len() as int);
}

} // verus!
