//! Reading back a record of the structured layout.

use vstd::prelude::*;
use crate::event::{Field, FieldModel, FieldValue, ValueModel, fields_of};
use crate::severity::Severity;
use crate::text::{chars_of, esc, string_of};

verus! {

/// The character that stands behind a backslash for `c`, if any.
pub open spec fn unescape_char(c: char) -> Option<char> {
    if c == '"' {
        Some('"')
    } else if c == '\\' {
        Some('\\')
    } else if c == 'n' {
        Some('\n')
    } else if c == 'r' {
        Some('\r')
    } else if c == 'e' {
        Some(esc())
    } else {
        None
    }
}

/// Reads escaped text up to the closing quote: the text, and what follows
/// the quote. `None` where the quote is missing or a backslash is followed
/// by a character that no escape uses.
pub open spec fn read_escaped(s: Seq<char>) -> Option<(Seq<char>, Seq<char>)>
    decreases s.len(),
{
    if s.len() == 0 {
        None
    } else if s[0] == '"' {
        Some((Seq::empty(), s.drop_first()))
    } else if s[0] == '\\' {
        if s.len() < 2 {
            None
        } else {
            match (unescape_char(s[1]), read_escaped(s.skip(2))) {
                (Some(c), Some((t, rest))) => Some((seq![c] + t, rest)),
                _ => None,
            }
        }
    } else {
        match read_escaped(s.drop_first()) {
            Some((t, rest)) => Some((seq![s[0]] + t, rest)),
            None => None,
        }
    }
}

/// Reads a text between quotes: the text, and what follows the closing
/// quote.
pub open spec fn read_quoted(s: Seq<char>) -> Option<(Seq<char>, Seq<char>)> {
    if s.len() > 0 && s[0] == '"' {
        read_escaped(s.drop_first())
    } else {
        None
    }
}

/// What was read so far, in front of what the rest of the input gives.
pub open spec fn in_front<T>(head: Seq<T>, tail: Option<(Seq<T>, Seq<char>)>) -> Option<
    (Seq<T>, Seq<char>),
> {
    match tail {
        Some((t, rest)) => Some((head + t, rest)),
        None => None,
    }
}

/// Reads escaped text that starts at `at`, up to the closing quote. Gives
/// the text and the position behind the quote.
pub fn scan_escaped(s: &Vec<char>, at: usize) -> (r: Option<(Vec<char>, usize)>)
    requires
        at <= s.len(),
    ensures
        match (read_escaped(s@.skip(at as int)), r) {
            (Some((t, rest)), Some((text, next))) => text@ == t && at < next <= s.len()
                && s@.skip(next as int) == rest,
            (None, None) => true,
            _ => false,
        },
{
    let mut text: Vec<char> = Vec::new();
    let mut i: usize = at;
    assert(in_front(text@, read_escaped(s@.skip(i as int))) == read_escaped(s@.skip(at as int)))
        by {
        match read_escaped(s@.skip(at as int)) {
            Some((t, rest)) => {
                assert(text@ + t =~= t);
            },
            None => {},
        }
    }
    while i < s.len()
        invariant
            at <= i <= s.len(),
            in_front(text@, read_escaped(s@.skip(i as int))) == read_escaped(s@.skip(at as int)),
        decreases s.len() - i,
    {
        let ghost here = s@.skip(i as int);
        let ghost before = text@;
        let c = s[i];
        assert(here[0] == c);
        assert(here.drop_first() =~= s@.skip(i + 1));
        if c == '"' {
            assert(before + Seq::<char>::empty() =~= before);
            return Some((text, i + 1));
        } else if c == '\\' {
            if i + 1 >= s.len() {
                return None;
            }
            let d = s[i + 1];
            assert(here[1] == d);
            assert(here.skip(2) =~= s@.skip(i + 2));
            let plain = if d == '"' {
                '"'
            } else if d == '\\' {
                '\\'
            } else if d == 'n' {
                '\n'
            } else if d == 'r' {
                '\r'
            } else if d == 'e' {
                '\u{1b}'
            } else {
                return None;
            };
            text.push(plain);
            proof {
                match read_escaped(s@.skip(i + 2)) {
                    Some((t, rest)) => {
                        assert(before + (seq![plain] + t) =~= before.push(plain) + t);
                    },
                    None => {},
                }
            }
            i = i + 2;
        } else {
            text.push(c);
            proof {
                match read_escaped(s@.skip(i + 1)) {
                    Some((t, rest)) => {
                        assert(before + (seq![c] + t) =~= before.push(c) + t);
                    },
                    None => {},
                }
            }
            i = i + 1;
        }
    }
    None
}

/// Reads a text between quotes that starts at `at`. Gives the text and the
/// position behind the closing quote.
pub fn scan_quoted(s: &Vec<char>, at: usize) -> (r: Option<(Vec<char>, usize)>)
    requires
        at <= s.len(),
    ensures
        match (read_quoted(s@.skip(at as int)), r) {
            (Some((t, rest)), Some((text, next))) => text@ == t && at < next <= s.len()
                && s@.skip(next as int) == rest,
            (None, None) => true,
            _ => false,
        },
{
    if at < s.len() && s[at] == '"' {
        assert(s@.skip(at as int).drop_first() =~= s@.skip(at + 1));
        scan_escaped(s, at + 1)
    } else {
        None
    }
}

/// The value of a decimal digit, if `c` is one.
pub open spec fn digit_value(c: char) -> Option<nat> {
    if c == '0' {
        Some(0)
    } else if c == '1' {
        Some(1)
    } else if c == '2' {
        Some(2)
    } else if c == '3' {
        Some(3)
    } else if c == '4' {
        Some(4)
    } else if c == '5' {
        Some(5)
    } else if c == '6' {
        Some(6)
    } else if c == '7' {
        Some(7)
    } else if c == '8' {
        Some(8)
    } else if c == '9' {
        Some(9)
    } else {
        None
    }
}

/// How many digits `s` starts with.
pub open spec fn digit_run(s: Seq<char>) -> nat
    decreases s.len(),
{
    if s.len() > 0 && digit_value(s[0]) is Some {
        1 + digit_run(s.drop_first())
    } else {
        0
    }
}

/// The number that a numeral stands for; a character that is no digit
/// counts as zero.
pub open spec fn digits_value(s: Seq<char>) -> nat
    decreases s.len(),
{
    if s.len() == 0 {
        0
    } else {
        digits_value(s.drop_last()) * 10 + (match digit_value(s.last()) {
            Some(d) => d,
            None => 0,
        })
    }
}

/// Reads an integer: an optional minus sign and then as many digits as
/// follow, at least one. `None` where no digit follows or the number does
/// not fit in 64 bits.
pub open spec fn read_int(s: Seq<char>) -> Option<(int, Seq<char>)> {
    let negative = s.len() > 0 && s[0] == '-';
    let d = if negative {
        s.drop_first()
    } else {
        s
    };
    let n = digit_run(d);
    let magnitude = digits_value(d.take(n as int));
    let v = if negative {
        -magnitude
    } else {
        magnitude as int
    };
    if n == 0 || v < i64::MIN || v > i64::MAX {
        None
    } else {
        Some((v, d.skip(n as int)))
    }
}

/// The word for the boolean true.
pub open spec fn word_true() -> Seq<char> {
    seq!['t', 'r', 'u', 'e']
}

/// The word for the boolean false.
pub open spec fn word_false() -> Seq<char> {
    seq!['f', 'a', 'l', 's', 'e']
}

/// Reads a value: a text between quotes, `true`, `false`, or an integer.
pub open spec fn read_value(s: Seq<char>) -> Option<(ValueModel, Seq<char>)> {
    if s.len() > 0 && s[0] == '"' {
        match read_escaped(s.drop_first()) {
            Some((t, rest)) => Some((ValueModel::Str(t), rest)),
            None => None,
        }
    } else if word_true().is_prefix_of(s) {
        Some((ValueModel::Bool(true), s.skip(4)))
    } else if word_false().is_prefix_of(s) {
        Some((ValueModel::Bool(false), s.skip(5)))
    } else {
        match read_int(s) {
            Some((v, rest)) => Some((ValueModel::Int(v), rest)),
            None => None,
        }
    }
}

fn digit_at(c: char) -> (d: Option<u8>)
    ensures
        match (digit_value(c), d) {
            (Some(v), Some(w)) => v == w && w < 10,
            (None, None) => true,
            _ => false,
        },
{
    if c == '0' {
        Some(0)
    } else if c == '1' {
        Some(1)
    } else if c == '2' {
        Some(2)
    } else if c == '3' {
        Some(3)
    } else if c == '4' {
        Some(4)
    } else if c == '5' {
        Some(5)
    } else if c == '6' {
        Some(6)
    } else if c == '7' {
        Some(7)
    } else if c == '8' {
        Some(8)
    } else if c == '9' {
        Some(9)
    } else {
        None
    }
}

/// The largest magnitude that a 64-bit integer can have.
pub const MAX_MAGNITUDE: u128 = 9223372036854775808;

/// Reads the digits that start at `at`. Gives the position behind them and
/// their value, or `None` for the value where it exceeds
/// [`MAX_MAGNITUDE`].
fn scan_digits(s: &Vec<char>, at: usize) -> (r: (usize, Option<u128>))
    requires
        at <= s.len(),
    ensures
        at <= r.0 <= s.len(),
        r.0 - at == digit_run(s@.skip(at as int)),
        match r.1 {
            Some(v) => v == digits_value(s@.skip(at as int).take(r.0 - at)) && v <= MAX_MAGNITUDE,
            None => digits_value(s@.skip(at as int).take(r.0 - at)) > MAX_MAGNITUDE,
        },
{
    let ghost input = s@.skip(at as int);
    let mut i: usize = at;
    let mut value: u128 = 0;
    let mut fits = true;
    assert(input.take(0) =~= Seq::<char>::empty());
    while i < s.len()
        invariant
            at <= i <= s.len(),
            input == s@.skip(at as int),
            digit_run(input) == (i - at) + digit_run(s@.skip(i as int)),
            fits ==> value == digits_value(input.take(i - at)) && value <= MAX_MAGNITUDE,
            !fits ==> digits_value(input.take(i - at)) > MAX_MAGNITUDE,
        decreases s.len() - i,
    {
        let ghost here = s@.skip(i as int);
        assert(here[0] == s@[i as int]);
        assert(here.drop_first() =~= s@.skip(i + 1));
        match digit_at(s[i]) {
            None => {
                return (i, if fits {
                    Some(value)
                } else {
                    None
                });
            },
            Some(d) => {
                proof {
                    let longer = input.take(i + 1 - at);
                    assert(longer.drop_last() =~= input.take(i - at));
                    assert(longer.last() == s@[i as int]);
                }
                if fits {
                    value = value * 10 + d as u128;
                    if value > MAX_MAGNITUDE {
                        fits = false;
                    }
                }
                i = i + 1;
            },
        }
    }
    (i, if fits {
        Some(value)
    } else {
        None
    })
}

/// Reads an integer that starts at `at`. Gives the integer and the
/// position behind it.
pub fn scan_int(s: &Vec<char>, at: usize) -> (r: Option<(i64, usize)>)
    requires
        at <= s.len(),
    ensures
        match (read_int(s@.skip(at as int)), r) {
            (Some((v, rest)), Some((n, next))) => n == v && at < next <= s.len() && s@.skip(
                next as int,
            ) == rest,
            (None, None) => true,
            _ => false,
        },
{
    let negative = at < s.len() && s[at] == '-';
    let start = if negative {
        at + 1
    } else {
        at
    };
    proof {
        if negative {
            assert(s@.skip(at as int).drop_first() =~= s@.skip(start as int));
        }
    }
    let (end, value) = scan_digits(s, start);
    assert(s@.skip(start as int).skip(end - start) =~= s@.skip(end as int));
    if end == start {
        return None;
    }
    match value {
        None => None,
        Some(magnitude) => {
            if negative {
                if magnitude == MAX_MAGNITUDE {
                    Some((i64::MIN, end))
                } else {
                    Some((-(magnitude as i64), end))
                }
            } else if magnitude == MAX_MAGNITUDE {
                None
            } else {
                Some((magnitude as i64, end))
            }
        },
    }
}

/// Whether the characters of `word` stand in `s` from `at` on.
pub fn has_prefix(s: &Vec<char>, at: usize, word: &Vec<char>) -> (yes: bool)
    requires
        at <= s.len(),
    ensures
        yes == word@.is_prefix_of(s@.skip(at as int)),
{
    if word.len() > s.len() - at {
        return false;
    }
    let ghost input = s@.skip(at as int);
    let mut i: usize = 0;
    while i < word.len()
        invariant
            at + word.len() <= s.len(),
            i <= word.len(),
            input == s@.skip(at as int),
            word@.take(i as int) =~= input.take(i as int),
        decreases word.len() - i,
    {
        if word[i] != s[at + i] {
            assert(input.subrange(0, word.len() as int)[i as int] != word@[i as int]);
            return false;
        }
        assert(word@.take(i + 1) =~= word@.take(i as int).push(word@[i as int]));
        assert(input.take(i + 1) =~= input.take(i as int).push(input[i as int]));
        i = i + 1;
    }
    assert(word@.take(word.len() as int) =~= word@);
    true
}

/// Reads a value that starts at `at`. Gives the value and the position
/// behind it.
pub fn scan_value(s: &Vec<char>, at: usize) -> (r: Option<(FieldValue, usize)>)
    requires
        at <= s.len(),
    ensures
        match (read_value(s@.skip(at as int)), r) {
            (Some((v, rest)), Some((value, next))) => value@ == v && at < next <= s.len()
                && s@.skip(next as int) == rest,
            (None, None) => true,
            _ => false,
        },
{
    let ghost input = s@.skip(at as int);
    if at < s.len() && s[at] == '"' {
        assert(input.drop_first() =~= s@.skip(at + 1));
        return match scan_escaped(s, at + 1) {
            Some((text, next)) => Some((FieldValue::Str(string_of(&text)), next)),
            None => None,
        };
    }
    let mut word: Vec<char> = Vec::new();
    word.push('t');
    word.push('r');
    word.push('u');
    word.push('e');
    assert(word@ =~= word_true());
    if has_prefix(s, at, &word) {
        assert(input.skip(4) =~= s@.skip(at + 4));
        return Some((FieldValue::Bool(true), at + 4));
    }
    let mut word: Vec<char> = Vec::new();
    word.push('f');
    word.push('a');
    word.push('l');
    word.push('s');
    word.push('e');
    assert(word@ =~= word_false());
    if has_prefix(s, at, &word) {
        assert(input.skip(5) =~= s@.skip(at + 5));
        return Some((FieldValue::Bool(false), at + 5));
    }
    match scan_int(s, at) {
        Some((n, next)) => Some((FieldValue::Int(n), next)),
        None => None,
    }
}

/// Reads the members of the fields object, of which there is at least
/// one, up to the closing brace: the fields in order, and what follows the
/// brace.
pub open spec fn read_entries(s: Seq<char>) -> Option<(Seq<FieldModel>, Seq<char>)>
    decreases s.len(),
{
    match read_quoted(s) {
        Some((key, after_key)) => if after_key.len() > 0 && after_key[0] == ':' {
            match read_value(after_key.drop_first()) {
                Some((value, after_value)) => {
                    let field = FieldModel { key, value };
                    if after_value.len() == 0 {
                        None
                    } else if after_value[0] == '}' {
                        Some((seq![field], after_value.drop_first()))
                    } else if after_value[0] == ',' && after_value.len() <= s.len() {
                        in_front(seq![field], read_entries(after_value.drop_first()))
                    } else {
                        None
                    }
                },
                None => None,
            }
        } else {
            None
        },
        None => None,
    }
}

/// Reads the fields object behind its opening brace: the fields in order,
/// and what follows the closing brace.
pub open spec fn read_members(s: Seq<char>) -> Option<(Seq<FieldModel>, Seq<char>)> {
    if s.len() > 0 && s[0] == '}' {
        Some((Seq::empty(), s.drop_first()))
    } else {
        read_entries(s)
    }
}

/// What is read back from a structured record.
pub struct Record {
    /// The severity, where the record shows it.
    pub severity: Option<Severity>,
    pub message: String,
    pub fields: Vec<Field>,
}

/// What a [`Record`] stands for.
pub struct RecordModel {
    pub severity: Option<Severity>,
    pub message: Seq<char>,
    pub fields: Seq<FieldModel>,
}

impl View for Record {
    type V = RecordModel;

    open spec fn view(&self) -> RecordModel {
        RecordModel {
            severity: self.severity,
            message: self.message@,
            fields: fields_of(self.fields@),
        }
    }
}

/// Reads the level member, where the record starts with one: the severity
/// if there is such a member, and what follows the member and its comma.
pub open spec fn read_level(s: Seq<char>) -> Option<(Option<Severity>, Seq<char>)> {
    let key = "\"level\":"@;
    if key.is_prefix_of(s) {
        match read_quoted(s.skip(key.len() as int)) {
            Some((name, rest)) => match Severity::from_label(name) {
                Some(severity) => if rest.len() > 0 && rest[0] == ',' {
                    Some((Some(severity), rest.drop_first()))
                } else {
                    None
                },
                None => None,
            },
            None => None,
        }
    } else {
        Some((None, s))
    }
}

/// Reads the message and the fields: the two members that follow the
/// level.
pub open spec fn read_body(s: Seq<char>) -> Option<(Seq<char>, Seq<FieldModel>)> {
    let key = "\"message\":"@;
    let next_key = ",\"fields\":{"@;
    if key.is_prefix_of(s) {
        match read_quoted(s.skip(key.len() as int)) {
            Some((message, rest)) => if next_key.is_prefix_of(rest) {
                match read_members(rest.skip(next_key.len() as int)) {
                    Some((fields, _)) => Some((message, fields)),
                    None => None,
                }
            } else {
                None
            },
            None => None,
        }
    } else {
        None
    }
}

/// Reads a structured record: an opening brace, the level member if there
/// is one, the message and the fields. What follows the fields is not
/// examined.
pub open spec fn read_record(s: Seq<char>) -> Option<RecordModel> {
    if s.len() > 0 && s[0] == '{' {
        match read_level(s.drop_first()) {
            Some((severity, rest)) => match read_body(rest) {
                Some((message, fields)) => Some(RecordModel { severity, message, fields }),
                None => None,
            },
            None => None,
        }
    } else {
        None
    }
}

fn scan_entries(s: &Vec<char>, at: usize) -> (r: Option<(Vec<Field>, usize)>)
    requires
        at <= s.len(),
    ensures
        match (read_entries(s@.skip(at as int)), r) {
            (Some((fs, rest)), Some((fields, next))) => fields_of(fields@) == fs && at < next
                <= s.len() && s@.skip(next as int) == rest,
            (None, None) => true,
            _ => false,
        },
{
    let mut fields: Vec<Field> = Vec::new();
    let mut i: usize = at;
    assert(in_front(fields_of(fields@), read_entries(s@.skip(i as int))) == read_entries(
        s@.skip(at as int),
    )) by {
        match read_entries(s@.skip(at as int)) {
            Some((fs, rest)) => {
                assert(fields_of(fields@) + fs =~= fs);
            },
            None => {},
        }
    }
    while i < s.len()
        invariant
            at <= i <= s.len(),
            in_front(fields_of(fields@), read_entries(s@.skip(i as int))) == read_entries(
                s@.skip(at as int),
            ),
        decreases s.len() - i,
    {
        let ghost before = fields_of(fields@);
        let (key, colon) = match scan_quoted(s, i) {
            Some(found) => found,
            None => {
                return None;
            },
        };
        if colon >= s.len() || s[colon] != ':' {
            return None;
        }
        assert(s@.skip(colon as int)[0] == s@[colon as int]);
        assert(s@.skip(colon as int).drop_first() =~= s@.skip(colon + 1));
        let (value, end) = match scan_value(s, colon + 1) {
            Some(found) => found,
            None => {
                return None;
            },
        };
        if end >= s.len() {
            return None;
        }
        assert(s@.skip(end as int)[0] == s@[end as int]);
        assert(s@.skip(end as int).drop_first() =~= s@.skip(end + 1));
        let field = Field { key: string_of(&key), value };
        let ghost model = field@;
        if s[end] == '}' {
            fields.push(field);
            assert(fields_of(fields@) =~= before + seq![model]);
            return Some((fields, end + 1));
        } else if s[end] == ',' {
            fields.push(field);
            proof {
                assert(fields_of(fields@) =~= before + seq![model]);
                match read_entries(s@.skip(end + 1)) {
                    Some((fs, rest)) => {
                        assert(before + (seq![model] + fs) =~= (before + seq![model]) + fs);
                    },
                    None => {},
                }
            }
            i = end + 1;
        } else {
            return None;
        }
    }
    None
}

fn scan_members(s: &Vec<char>, at: usize) -> (r: Option<(Vec<Field>, usize)>)
    requires
        at <= s.len(),
    ensures
        match (read_members(s@.skip(at as int)), r) {
            (Some((fs, rest)), Some((fields, next))) => fields_of(fields@) == fs && at < next
                <= s.len() && s@.skip(next as int) == rest,
            (None, None) => true,
            _ => false,
        },
{
    if at < s.len() && s[at] == '}' {
        assert(s@.skip(at as int).drop_first() =~= s@.skip(at + 1));
        let fields: Vec<Field> = Vec::new();
        assert(fields_of(fields@) =~= Seq::<FieldModel>::empty());
        Some((fields, at + 1))
    } else {
        scan_entries(s, at)
    }
}

fn scan_level(s: &Vec<char>, at: usize) -> (r: Option<(Option<Severity>, usize)>)
    requires
        at <= s.len(),
    ensures
        match (read_level(s@.skip(at as int)), r) {
            (Some((severity, rest)), Some((found, next))) => found == severity && at <= next
                <= s.len() && s@.skip(next as int) == rest,
            (None, None) => true,
            _ => false,
        },
{
    let key = chars_of("\"level\":");
    if !has_prefix(s, at, &key) {
        return Some((None, at));
    }
    let start = at + key.len();
    assert(s@.skip(at as int).skip(key.len() as int) =~= s@.skip(start as int));
    let (name, end) = match scan_quoted(s, start) {
        Some(found) => found,
        None => {
            return None;
        },
    };
    match Severity::parse_label(&name) {
        Some(severity) => {
            if end < s.len() && s[end] == ',' {
                assert(s@.skip(end as int)[0] == s@[end as int]);
                assert(s@.skip(end as int).drop_first() =~= s@.skip(end + 1));
                Some((Some(severity), end + 1))
            } else {
                None
            }
        },
        None => None,
    }
}

fn scan_body(s: &Vec<char>, at: usize) -> (r: Option<(String, Vec<Field>)>)
    requires
        at <= s.len(),
    ensures
        match (read_body(s@.skip(at as int)), r) {
            (Some((m, fs)), Some((message, fields))) => message@ == m && fields_of(fields@) == fs,
            (None, None) => true,
            _ => false,
        },
{
    let key = chars_of("\"message\":");
    if !has_prefix(s, at, &key) {
        return None;
    }
    let start = at + key.len();
    assert(s@.skip(at as int).skip(key.len() as int) =~= s@.skip(start as int));
    let (message, end) = match scan_quoted(s, start) {
        Some(found) => found,
        None => {
            return None;
        },
    };
    let next_key = chars_of(",\"fields\":{");
    if !has_prefix(s, end, &next_key) {
        return None;
    }
    let open = end + next_key.len();
    assert(s@.skip(end as int).skip(next_key.len() as int) =~= s@.skip(open as int));
    match scan_members(s, open) {
        Some((fields, _)) => Some((string_of(&message), fields)),
        None => None,
    }
}

/// Reads a record of the structured layout back: the severity where the
/// record shows it, the message and the fields. `None` where the line does
/// not start as such a record does.
pub fn parse_record(line: &str) -> (r: Option<Record>)
    ensures
        match (read_record(line@), r) {
            (Some(model), Some(record)) => record@ == model,
            (None, None) => true,
            _ => false,
        },
{
    let s = chars_of(line);
    if s.len() == 0 || s[0] != '{' {
        return None;
    }
    assert(s@.drop_first() =~= s@.skip(1));
    let (severity, at) = match scan_level(&s, 1) {
        Some(found) => found,
        None => {
            return None;
        },
    };
    match scan_body(&s, at) {
        Some((message, fields)) => Some(Record { severity, message, fields }),
        None => None,
    }
}

} // verus!
