//! Reading a structured record back gives what was rendered.

use vstd::prelude::*;
use crate::config::{Config, Layout};
use crate::event::{EventModel, Field, FieldModel, ValueModel, fields_of};
use crate::format::{
    members, quoted, rendered, shown_level, structured_body, structured_head, structured_level,
    structured_tail, value_text,
};
use crate::parse::{
    RecordModel, digit_run, digit_value, digits_value, read_body, read_entries, read_escaped,
    read_int, read_level, read_members, read_quoted, read_record, read_value, unescape_char,
    word_false, word_true,
};
use crate::severity::Severity;
use crate::text::{decimal, digit_char, escape, escape_char, signed_decimal};

verus! {

/// Escaped text, closed by a quote, reads back as the text, and the input
/// behind the quote is left over.
pub proof fn lemma_escaped_reads_back(t: Seq<char>, rest: Seq<char>)
    ensures
        read_escaped(escape(t) + seq!['"'] + rest) == Some((t, rest)),
    decreases t.len(),
{
    let s = escape(t) + seq!['"'] + rest;
    if t.len() == 0 {
        assert(s.drop_first() =~= rest);
        assert(s[0] == '"');
    } else {
        let c = t[0];
        let tail = t.drop_first();
        let after = escape(tail) + seq!['"'] + rest;
        lemma_escaped_reads_back(tail, rest);
        assert(s =~= escape_char(c) + after);
        if escape_char(c).len() == 2 {
            assert(s[0] == '\\');
            assert(unescape_char(s[1]) == Some(c));
            assert(s.skip(2) =~= after);
        } else {
            assert(s[0] == c);
            assert(s.drop_first() =~= after);
        }
        assert(seq![c] + tail =~= t);
    }
}

/// A quoted text reads back as the text.
pub proof fn lemma_quoted_reads_back(t: Seq<char>, rest: Seq<char>)
    ensures
        read_quoted(quoted(t) + rest) == Some((t, rest)),
{
    let s = quoted(t) + rest;
    lemma_escaped_reads_back(t, rest);
    assert(s[0] == '"');
    assert(s.drop_first() =~= escape(t) + seq!['"'] + rest);
}

/// A numeral is made of digits and stands for its number.
pub proof fn lemma_decimal_reads_back(n: nat)
    ensures
        digits_value(decimal(n)) == n,
        decimal(n).len() > 0,
        forall|i: int| 0 <= i < decimal(n).len() ==> digit_value(#[trigger] decimal(n)[i]) is Some,
    decreases n,
{
    if n < 10 {
        assert(decimal(n).drop_last() =~= Seq::<char>::empty());
        assert(digits_value(decimal(n).drop_last()) == 0);
        assert(digit_value(digit_char(n)) == Some(n));
    } else {
        lemma_decimal_reads_back(n / 10);
        assert(decimal(n).drop_last() =~= decimal(n / 10));
        assert(digit_value(digit_char(n % 10)) == Some(n % 10));
    }
}

/// Digits followed by something that is no digit are counted in full.
pub proof fn lemma_digit_run_stops(digits: Seq<char>, rest: Seq<char>)
    requires
        forall|i: int| 0 <= i < digits.len() ==> digit_value(#[trigger] digits[i]) is Some,
        rest.len() > 0 ==> digit_value(rest[0]) is None,
    ensures
        digit_run(digits + rest) == digits.len(),
    decreases digits.len(),
{
    let s = digits + rest;
    if digits.len() == 0 {
        assert(s =~= rest);
    } else {
        assert(s[0] == digits[0]);
        assert(s.drop_first() =~= digits.drop_first() + rest);
        assert forall|i: int| 0 <= i < digits.drop_first().len() implies digit_value(
            #[trigger] digits.drop_first()[i],
        ) is Some by {
            assert(digits.drop_first()[i] == digits[i + 1]);
        }
        lemma_digit_run_stops(digits.drop_first(), rest);
    }
}

/// The numeral of a 64-bit integer reads back as the integer, where no
/// digit follows it.
pub proof fn lemma_int_reads_back(n: int, rest: Seq<char>)
    requires
        i64::MIN <= n <= i64::MAX,
        rest.len() > 0 ==> digit_value(rest[0]) is None,
    ensures
        read_int(signed_decimal(n) + rest) == Some((n, rest)),
        (signed_decimal(n) + rest)[0] == '-' || digit_value((signed_decimal(n) + rest)[0]) is Some,
{
    let s = signed_decimal(n) + rest;
    let magnitude = if n < 0 {
        (-n) as nat
    } else {
        n as nat
    };
    let numeral = decimal(magnitude);
    lemma_decimal_reads_back(magnitude);
    lemma_digit_run_stops(numeral, rest);
    assert(digit_value(numeral[0]) is Some);
    let d = numeral + rest;
    assert(d.take(numeral.len() as int) =~= numeral);
    assert(d.skip(numeral.len() as int) =~= rest);
    if n < 0 {
        assert(s[0] == '-');
        assert(s.drop_first() =~= d);
    } else {
        assert(s =~= d);
        assert(s[0] == numeral[0]);
    }
}

/// A rendered value reads back as the value, where no digit follows it.
pub proof fn lemma_value_reads_back(v: ValueModel, rest: Seq<char>)
    requires
        v matches ValueModel::Int(n) ==> i64::MIN <= n <= i64::MAX,
        rest.len() > 0 ==> digit_value(rest[0]) is None,
    ensures
        read_value(value_text(v) + rest) == Some((v, rest)),
{
    let s = value_text(v) + rest;
    match v {
        ValueModel::Str(t) => {
            lemma_escaped_reads_back(t, rest);
            assert(s[0] == '"');
            assert(s.drop_first() =~= escape(t) + seq!['"'] + rest);
        },
        ValueModel::Int(n) => {
            lemma_int_reads_back(n, rest);
            assert(!word_true().is_prefix_of(s)) by {
                if word_true().is_prefix_of(s) {
                    assert(s.subrange(0, 4)[0] == word_true()[0]);
                }
            }
            assert(!word_false().is_prefix_of(s)) by {
                if word_false().is_prefix_of(s) {
                    assert(s.subrange(0, 5)[0] == word_false()[0]);
                }
            }
        },
        ValueModel::Bool(b) => {
            if b {
                assert(s[0] == 't');
                assert(s.subrange(0, 4) =~= word_true());
                assert(s.skip(4) =~= rest);
            } else {
                assert(s[0] == 'f');
                assert(!word_true().is_prefix_of(s)) by {
                    if word_true().is_prefix_of(s) {
                        assert(s.subrange(0, 4)[0] == word_true()[0]);
                    }
                }
                assert(s.subrange(0, 5) =~= word_false());
                assert(s.skip(5) =~= rest);
            }
        },
    }
}

/// Every integer among the fields fits in 64 bits.
pub open spec fn representable(fields: Seq<FieldModel>) -> bool {
    forall|i: int|
        0 <= i < fields.len() ==> (#[trigger] fields[i].value matches ValueModel::Int(n)
            ==> i64::MIN <= n <= i64::MAX)
}

/// The fields of an event are representable.
pub proof fn lemma_fields_are_representable(fields: Seq<Field>)
    ensures
        representable(fields_of(fields)),
{
}

/// The members of a fields object that is not empty, closed by a brace,
/// read back as the fields.
pub proof fn lemma_entries_read_back(fields: Seq<FieldModel>, rest: Seq<char>)
    requires
        fields.len() > 0,
        representable(fields),
    ensures
        read_entries(members(fields) + seq!['}'] + rest) == Some((fields, rest)),
    decreases fields.len(),
{
    let s = members(fields) + seq!['}'] + rest;
    let f = fields[0];
    let tail = fields.drop_first();
    let closing = if fields.len() == 1 {
        seq!['}'] + rest
    } else {
        seq![','] + (members(tail) + seq!['}'] + rest)
    };
    let after_key = seq![':'] + (value_text(f.value) + closing);
    assert(s =~= quoted(f.key) + after_key);
    lemma_quoted_reads_back(f.key, after_key);
    assert(after_key[0] == ':');
    assert(after_key.drop_first() =~= value_text(f.value) + closing);
    assert(digit_value(closing[0]) is None);
    assert(fields[0].value matches ValueModel::Int(n) ==> i64::MIN <= n <= i64::MAX);
    lemma_value_reads_back(f.value, closing);
    assert(FieldModel { key: f.key, value: f.value } == f);
    if fields.len() == 1 {
        assert(closing.drop_first() =~= rest);
        assert(seq![f] =~= fields);
    } else {
        assert(closing.drop_first() =~= members(tail) + seq!['}'] + rest);
        assert(closing.len() <= s.len());
        assert forall|i: int| 0 <= i < tail.len() implies (#[trigger] tail[i].value matches ValueModel::Int(
            n,
        ) ==> i64::MIN <= n <= i64::MAX) by {
            assert(tail[i] == fields[i + 1]);
        }
        lemma_entries_read_back(tail, rest);
        assert(seq![f] + tail =~= fields);
    }
}

/// A rendered fields object, behind its opening brace, reads back as the
/// fields.
pub proof fn lemma_members_read_back(fields: Seq<FieldModel>, rest: Seq<char>)
    requires
        representable(fields),
    ensures
        read_members(members(fields) + seq!['}'] + rest) == Some((fields, rest)),
{
    let s = members(fields) + seq!['}'] + rest;
    if fields.len() == 0 {
        assert(s[0] == '}');
        assert(s.drop_first() =~= rest);
        assert(fields =~= Seq::<FieldModel>::empty());
    } else {
        lemma_entries_read_back(fields, rest);
        assert(quoted(fields[0].key)[0] == '"');
        assert(s[0] == '"');
    }
}

/// The message and the fields of a structured record read back, whatever
/// follows them.
pub proof fn lemma_body_reads_back(message: Seq<char>, fields: Seq<FieldModel>, rest: Seq<char>)
    requires
        representable(fields),
    ensures
        read_body(structured_body(message, fields) + rest) == Some((message, fields)),
{
    let body = structured_body(message, fields) + rest;
    let message_key = "\"message\":"@;
    let fields_key = ",\"fields\":{"@;
    let after_message = fields_key + (members(fields) + seq!['}'] + rest);
    assert(body =~= message_key + (quoted(message) + after_message));
    assert(message_key.is_prefix_of(body)) by {
        assert(body.subrange(0, message_key.len() as int) =~= message_key);
    }
    assert(body.skip(message_key.len() as int) =~= quoted(message) + after_message);
    lemma_quoted_reads_back(message, after_message);
    assert(fields_key.is_prefix_of(after_message)) by {
        assert(after_message.subrange(0, fields_key.len() as int) =~= fields_key);
    }
    assert(after_message.skip(fields_key.len() as int) =~= members(fields) + seq!['}'] + rest);
    lemma_members_read_back(fields, rest);
}

/// The level member of a structured record reads back as the level, and a
/// record without one as no level, where the message member follows.
pub proof fn lemma_level_reads_back(level: Option<Severity>, body: Seq<char>)
    requires
        "\"message\":"@.is_prefix_of(body),
    ensures
        read_level(structured_level(level) + body) == Some((level, body)),
{
    let level_key = "\"level\":"@;
    let message_key = "\"message\":"@;
    let start = structured_level(level) + body;
    match level {
        Some(severity) => {
            let after_level = seq![','] + body;
            assert(start =~= level_key + (quoted(severity.label()) + after_level));
            assert(level_key.is_prefix_of(start)) by {
                assert(start.subrange(0, level_key.len() as int) =~= level_key);
            }
            assert(start.skip(level_key.len() as int) =~= quoted(severity.label()) + after_level);
            lemma_quoted_reads_back(severity.label(), after_level);
            severity.label_round_trip();
            assert(after_level[0] == ',');
            assert(after_level.drop_first() =~= body);
        },
        None => {
            reveal_strlit("\"level\":");
            reveal_strlit("\"message\":");
            assert(start =~= body);
            assert(!level_key.is_prefix_of(body)) by {
                if level_key.is_prefix_of(body) {
                    assert(body.subrange(0, level_key.len() as int)[1] == level_key[1]);
                    assert(body.subrange(0, message_key.len() as int)[1] == message_key[1]);
                }
            }
        },
    }
}

/// The start of a structured record reads back as the level, the message
/// and the fields that it was rendered from, whatever follows it.
pub proof fn lemma_head_reads_back(
    level: Option<Severity>,
    message: Seq<char>,
    fields: Seq<FieldModel>,
    rest: Seq<char>,
)
    requires
        representable(fields),
    ensures
        read_record(structured_head(level, message, fields) + rest) == Some(
            RecordModel { severity: level, message, fields },
        ),
{
    let s = structured_head(level, message, fields) + rest;
    let body = structured_body(message, fields) + rest;
    lemma_body_reads_back(message, fields, rest);
    assert("\"message\":"@.is_prefix_of(body)) by {
        assert(body.subrange(0, "\"message\":"@.len() as int) =~= "\"message\":"@);
    }
    lemma_level_reads_back(level, body);
    assert(s[0] == '{');
    assert(s.drop_first() =~= structured_level(level) + body);
}

/// A record rendered in the structured layout reads back as the message and
/// the fields of its event, and as the event's severity where the level is
/// shown.
pub proof fn structured_record_reads_back(e: EventModel, c: Config)
    requires
        c.layout == Layout::Structured,
        representable(e.fields),
    ensures
        read_record(rendered(e, c)) == Some(
            RecordModel { severity: shown_level(e, c), message: e.message, fields: e.fields },
        ),
        c.show_level ==> shown_level(e, c) == Some(e.severity),
{
    lemma_head_reads_back(shown_level(e, c), e.message, e.fields, structured_tail(e, c));
}

} // verus!
