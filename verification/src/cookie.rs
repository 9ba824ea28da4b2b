//! The cookie that the site gives a user who is logged in.
use crate::text;
use vstd::prelude::*;

verus! {

/// The entry under which the user's number stands.
pub open spec fn user_id_name() -> Seq<char> {
    "DedeUserID"@
}

/// The entry under which the token stands that requests have to repeat.
pub open spec fn csrf_name() -> Seq<char> {
    "bili_jct"@
}

/// The value in one entry of a cookie, where the entry has the name and a value. White space
/// around the two does not count, nor does a second `=` and what follows it.
pub open spec fn entry_value(entry: Seq<char>, name: Seq<char>) -> Option<Seq<char>> {
    let equals = text::position(entry, '=') as int;
    if text::trimmed(entry.take(equals)) != name || equals == entry.len() {
        None
    } else {
        let rest = entry.skip(equals + 1);
        Some(text::trimmed(rest.take(text::position(rest, '=') as int)))
    }
}

/// The value in the first entry of a cookie that has the name and a value. Entries are parted
/// by `;`.
pub open spec fn value_in(cookie: Seq<char>, name: Seq<char>) -> Option<Seq<char>>
    decreases cookie.len(),
{
    let end = text::position(cookie, ';') as int;
    match entry_value(cookie.take(end), name) {
        Some(value) => Some(value),
        None => if end < cookie.len() {
            value_in(cookie.skip(end + 1), name)
        } else {
            None
        },
    }
}

fn value_of_entry(entry: &str, name: &str) -> (value: Option<String>)
    ensures
        match value {
            Some(v) => entry_value(entry@, name@) == Some(v@),
            None => entry_value(entry@, name@) is None,
        },
{
    let equals: usize = text::find_char(entry, '=');
    let len: usize = entry.unicode_len();
    let found = text::trim(entry.substring_char(0, equals));
    assert(entry@.subrange(0, equals as int) =~= entry@.take(equals as int));
    if found != name.to_owned() || equals == len {
        return None;
    }
    let rest = entry.substring_char(equals + 1, len);
    assert(rest@ =~= entry@.skip(equals + 1));
    let end: usize = text::find_char(rest, '=');
    let value = rest.substring_char(0, end);
    assert(value@ =~= rest@.take(end as int));
    Some(text::trim(value))
}

/// Looks a value up in a cookie.
pub fn cookie_value(cookie: &str, name: &str) -> (value: Option<String>)
    ensures
        match value {
            Some(v) => value_in(cookie@, name@) == Some(v@),
            None => value_in(cookie@, name@) is None,
        },
{
    let mut left: &str = cookie;
    loop
        invariant
            value_in(cookie@, name@) == value_in(left@, name@),
        decreases left@.len(),
    {
        let end: usize = text::find_char(left, ';');
        let len: usize = left.unicode_len();
        let entry = left.substring_char(0, end);
        assert(entry@ =~= left@.take(end as int));
        let value = value_of_entry(entry, name);
        if value.is_some() || end == len {
            return value;
        }
        let rest = left.substring_char(end + 1, len);
        assert(rest@ =~= left@.skip(end + 1));
        left = rest;
    }
}

/// The token that requests have to repeat, where the cookie has one.
pub fn csrf_token(cookie: &str) -> (token: Option<String>)
    ensures
        match token {
            Some(t) => value_in(cookie@, csrf_name()) == Some(t@),
            None => value_in(cookie@, csrf_name()) is None,
        },
{
    cookie_value(cookie, "bili_jct")
}

/// Why a cookie does not tell the user's number.
#[derive(Debug, Clone, Copy, PartialEq, Eq, Structural)]
pub enum UserIdError {
    /// There is no such entry.
    Missing,
    /// The entry is no number.
    NotANumber,
}

/// The user's number in a cookie.
pub fn user_id(cookie: &str) -> (id: Result<i64, UserIdError>)
    ensures
        match value_in(cookie@, user_id_name()) {
            None => id == Err::<i64, UserIdError>(UserIdError::Missing),
            Some(value) => match text::signed_value(value) {
                None => id == Err::<i64, UserIdError>(UserIdError::NotANumber),
                Some(n) => id matches Ok(v) && v == n,
            },
        },
{
    match cookie_value(cookie, "DedeUserID") {
        None => Err(UserIdError::Missing),
        Some(value) => match text::parse_i64(value.as_str()) {
            None => Err(UserIdError::NotANumber),
            Some(n) => Ok(n),
        },
    }
}

/// The first entry of a cookie decides, where it has the name and a value.
pub proof fn law_first_entry_decides(entry: Seq<char>, rest: Seq<char>, name: Seq<char>)
    requires
        !entry.contains(';'),
        entry_value(entry, name) is Some,
    ensures
        value_in(entry, name) == entry_value(entry, name),
        value_in(entry + seq![';'] + rest, name) == entry_value(entry, name),
{
    let cookie = entry + seq![';'] + rest;
    text::lemma_position(entry, ';', entry.len() as int);
    assert(entry.take(entry.len() as int) =~= entry);
    text::lemma_position(cookie, ';', entry.len() as int);
    assert(cookie.take(entry.len() as int) =~= entry);
}

/// An entry without the name, or without a value, is passed over.
pub proof fn law_other_entry_is_passed_over(entry: Seq<char>, rest: Seq<char>, name: Seq<char>)
    requires
        !entry.contains(';'),
        entry_value(entry, name) is None,
    ensures
        value_in(entry, name) is None,
        value_in(entry + seq![';'] + rest, name) == value_in(rest, name),
{
    let cookie = entry + seq![';'] + rest;
    text::lemma_position(entry, ';', entry.len() as int);
    assert(entry.take(entry.len() as int) =~= entry);
    text::lemma_position(cookie, ';', entry.len() as int);
    assert(cookie.take(entry.len() as int) =~= entry);
    assert(cookie.skip(entry.len() as int + 1) =~= rest);
}

/// Whether a text holds nothing but white space.
pub open spec fn blank(s: Seq<char>) -> bool {
    forall|i: int| 0 <= i < s.len() ==> text::white_space(#[trigger] s[i])
}

/// Whether a text can stand in a cookie as a name or a value: it has none of the characters
/// that part names, values and entries, and no white space at its ends.
pub open spec fn bare(s: Seq<char>) -> bool {
    &&& !s.contains(';')
    &&& !s.contains('=')
    &&& s.len() > 0 ==> !text::white_space(s[0]) && !text::white_space(s.last())
}

/// An entry is found by its name, and its value is found whole, however long it is. White
/// space around the two does not count, nor does a second `=` and what follows it, nor do
/// the entries behind.
pub proof fn law_value_is_found_whole(
    name: Seq<char>,
    value: Seq<char>,
    spaces: (Seq<char>, Seq<char>, Seq<char>, Seq<char>),
    more: Seq<char>,
    rest: Seq<char>,
)
    requires
        bare(name),
        bare(value),
        blank(spaces.0),
        blank(spaces.1),
        blank(spaces.2),
        blank(spaces.3),
        !more.contains(';'),
        more.len() > 0 ==> more[0] == '=',
        rest.len() > 0 ==> rest[0] == ';',
    ensures
        value_in(
            spaces.0 + name + spaces.1 + seq!['='] + (spaces.2 + value + spaces.3) + more + rest,
            name,
        ) == Some(value),
{
    let named = spaces.0 + name + spaces.1;
    let valued = spaces.2 + value + spaces.3;
    let entry = named + seq!['='] + valued + more;
    let cookie = named + seq!['='] + valued + more + rest;
    lemma_padded(name, spaces.0, spaces.1);
    lemma_padded(value, spaces.2, spaces.3);
    let equals = named.len() as int;
    assert forall|k: int| 0 <= k < equals implies entry[k] != '=' by {
        assert(entry[k] == named[k]);
    }
    text::lemma_position(entry, '=', equals);
    assert(entry.take(equals) =~= named);
    let behind = entry.skip(equals + 1);
    assert(behind =~= valued + more);
    assert forall|k: int| 0 <= k < valued.len() implies behind[k] != '=' by {
        assert(behind[k] == valued[k]);
    }
    if more.len() > 0 {
        assert(behind[valued.len() as int] == more[0]);
    }
    text::lemma_position(behind, '=', valued.len() as int);
    assert(behind.take(valued.len() as int) =~= valued);
    assert(entry_value(entry, name) == Some(value));
    let end = entry.len() as int;
    assert forall|k: int| 0 <= k < end implies cookie[k] != ';' by {
        assert(cookie[k] == entry[k]);
        if k < equals {
            assert(entry[k] == named[k]);
        } else if equals < k && k < equals + 1 + valued.len() {
            assert(entry[k] == valued[k - equals - 1]);
        } else if k > equals {
            assert(entry[k] == more[k - equals - 1 - valued.len()]);
        }
    }
    if rest.len() > 0 {
        assert(cookie[end] == rest[0]);
    }
    text::lemma_position(cookie, ';', end);
    assert(cookie.take(end) =~= entry);
}

proof fn lemma_padded(s: Seq<char>, before: Seq<char>, after: Seq<char>)
    requires
        bare(s),
        blank(before),
        blank(after),
    ensures
        text::trimmed(before + s + after) == s,
        forall|k: int|
            0 <= k < (before + s + after).len() ==> (before + s + after)[k] != '=' && (before + s
                + after)[k] != ';',
{
    let padded = before + s + after;
    text::law_only_white_space_is_trimmed(before, s, after);
    assert forall|k: int| 0 <= k < padded.len() implies padded[k] != '=' && padded[k] != ';' by {
        if k < before.len() {
            assert(padded[k] == before[k]);
            assert(text::white_space(before[k]));
        } else if k < before.len() + s.len() {
            assert(padded[k] == s[k - before.len()]);
            assert(s.contains(padded[k]));
        } else {
            assert(padded[k] == after[k - before.len() - s.len()]);
            assert(text::white_space(after[k - before.len() - s.len()]));
        }
    }
}

/// An entry without `=` has no value and is passed over.
pub proof fn law_entry_without_value_is_passed_over(
    entry: Seq<char>,
    rest: Seq<char>,
    name: Seq<char>,
)
    requires
        !entry.contains(';'),
        !entry.contains('='),
    ensures
        value_in(entry, name) is None,
        value_in(entry + seq![';'] + rest, name) == value_in(rest, name),
{
    text::lemma_position(entry, '=', entry.len() as int);
    law_other_entry_is_passed_over(entry, rest, name);
}

/// An entry with another name is passed over, whatever its value is.
pub proof fn law_entry_of_another_name_is_passed_over(
    other: Seq<char>,
    spaces: (Seq<char>, Seq<char>),
    more: Seq<char>,
    rest: Seq<char>,
    name: Seq<char>,
)
    requires
        bare(other),
        other != name,
        blank(spaces.0),
        blank(spaces.1),
        !more.contains(';'),
    ensures
        value_in(spaces.0 + other + spaces.1 + seq!['='] + more, name) is None,
        value_in(spaces.0 + other + spaces.1 + seq!['='] + more + seq![';'] + rest, name)
            == value_in(rest, name),
{
    let named = spaces.0 + other + spaces.1;
    let entry = named + seq!['='] + more;
    lemma_padded(other, spaces.0, spaces.1);
    let equals = named.len() as int;
    assert forall|k: int| 0 <= k < equals implies entry[k] != '=' by {
        assert(entry[k] == named[k]);
    }
    text::lemma_position(entry, '=', equals);
    assert(entry.take(equals) =~= named);
    assert forall|k: int| 0 <= k < entry.len() implies entry[k] != ';' by {
        if k < equals {
            assert(entry[k] == named[k]);
        } else if k > equals {
            assert(entry[k] == more[k - equals - 1]);
        }
    }
    law_other_entry_is_passed_over(entry, rest, name);
}

/// The token is what the cookie has under `bili_jct`.
pub proof fn law_token_is_bili_jct(
    cookie: &str,
    name: &str,
    value: Option<String>,
    token: Option<String>,
)
    requires
        name@ == "bili_jct"@,
        call_ensures(cookie_value, (cookie, name), value),
        call_ensures(csrf_token, (cookie,), token),
    ensures
        match value {
            Some(v) => value_in(cookie@, "bili_jct"@) == Some(v@) && (token matches Some(t) && t@
                == v@),
            None => value_in(cookie@, "bili_jct"@) is None && token is None,
        },
{
}

/// The user's number is the number that the cookie has under `DedeUserID`.
pub proof fn law_user_id_is_dede_user_id(
    cookie: &str,
    name: &str,
    value: Option<String>,
    digits: &str,
    number: Option<i64>,
    id: Result<i64, UserIdError>,
)
    requires
        name@ == "DedeUserID"@,
        call_ensures(cookie_value, (cookie, name), value),
        value matches Some(v) ==> digits@ == v@,
        call_ensures(text::parse_i64, (digits,), number),
        call_ensures(user_id, (cookie,), id),
    ensures
        match (value, number) {
            (None, _) => id == Err::<i64, UserIdError>(UserIdError::Missing),
            (Some(_), None) => id == Err::<i64, UserIdError>(UserIdError::NotANumber),
            (Some(_), Some(n)) => id == Ok::<i64, UserIdError>(n),
        },
{
}

/// A user's number that stands in the cookie is read as that number, wherever it stands.
pub proof fn law_user_id_reads_back(
    n: i64,
    spaces: (Seq<char>, Seq<char>, Seq<char>, Seq<char>),
    rest: Seq<char>,
    cookie: &str,
    id: Result<i64, UserIdError>,
)
    requires
        blank(spaces.0),
        blank(spaces.1),
        blank(spaces.2),
        blank(spaces.3),
        rest.len() > 0 ==> rest[0] == ';',
        cookie@ == spaces.0 + "DedeUserID"@ + spaces.1 + seq!['='] + (spaces.2
            + text::signed_decimal(n as int) + spaces.3) + rest,
        call_ensures(user_id, (cookie,), id),
    ensures
        id == Ok::<i64, UserIdError>(n),
{
    let name = "DedeUserID"@;
    let value = text::signed_decimal(n as int);
    reveal_strlit("DedeUserID");
    assert(bare(name));
    text::law_signed_decimal_reads_back(n);
    let digits = if n < 0 {
        value.skip(1)
    } else {
        value
    };
    assert(digits =~= text::decimal(
        (if n < 0 {
            -n
        } else {
            n as int
        }) as nat,
    ));
    text::lemma_decimal_value(
        (if n < 0 {
            -n
        } else {
            n as int
        }) as nat,
    );
    assert forall|k: int| 0 <= k < value.len() implies text::is_digit(#[trigger] value[k])
        || value[k] == '-' by {
        if n < 0 && k > 0 {
            assert(value[k] == digits[k - 1]);
        }
    }
    assert(bare(value));
    let front = spaces.0 + name + spaces.1 + seq!['='] + (spaces.2 + value + spaces.3);
    assert(front + Seq::empty() + rest =~= cookie@);
    law_value_is_found_whole(name, value, spaces, Seq::empty(), rest);
}

} // verus!
