//! Rendering of an event as text, in each of the three layouts.

use vstd::prelude::*;
use crate::config::{Config, Layout};
use crate::event::{Event, EventModel, Field, FieldModel, FieldValue, ValueModel, fields_of};
use crate::severity::Severity;
use crate::text::{
    chars_of, decimal, esc, escape, push_decimal, push_escaped, push_signed_decimal, push_str,
    signed_decimal, string_of, texts_of,
};

verus! {

/// Text between double quotes, escaped.
pub open spec fn quoted(s: Seq<char>) -> Seq<char> {
    seq!['"'] + escape(s) + seq!['"']
}

/// The last character of the ANSI sequence that selects a severity's colour.
pub open spec fn color_code(severity: Severity) -> char {
    match severity {
        Severity::Trace => '5',
        Severity::Debug => '4',
        Severity::Info => '2',
        Severity::Warn => '3',
        Severity::Error => '1',
    }
}

/// The severity's name, between ANSI colour sequences where `colored`.
pub open spec fn level_text(severity: Severity, colored: bool) -> Seq<char> {
    if colored {
        seq![esc(), '[', '3', color_code(severity), 'm'] + severity.label() + seq![
            esc(),
            '[',
            '0',
            'm',
        ]
    } else {
        severity.label()
    }
}

/// A field's value: a string between quotes, an integer as its numeral, a
/// boolean as `true` or `false`.
pub open spec fn value_text(v: ValueModel) -> Seq<char> {
    match v {
        ValueModel::Str(s) => quoted(s),
        ValueModel::Int(n) => signed_decimal(n),
        ValueModel::Bool(b) => if b {
            seq!['t', 'r', 'u', 'e']
        } else {
            seq!['f', 'a', 'l', 's', 'e']
        },
    }
}

/// The fields of a one-line record: each as a space, the key, `=` and the
/// value.
pub open spec fn inline_fields(fields: Seq<FieldModel>) -> Seq<char>
    decreases fields.len(),
{
    if fields.len() == 0 {
        Seq::empty()
    } else {
        seq![' '] + escape(fields[0].key) + seq!['='] + value_text(fields[0].value)
            + inline_fields(fields.drop_first())
    }
}

/// The span chain of a one-line record: each name followed by a colon,
/// outermost first.
pub open spec fn inline_spans(spans: Seq<Seq<char>>) -> Seq<char>
    decreases spans.len(),
{
    if spans.len() == 0 {
        Seq::empty()
    } else {
        escape(spans[0]) + seq![':'] + inline_spans(spans.drop_first())
    }
}

/// The span chain of a multi-line record: one line per span, outermost
/// first.
pub open spec fn block_spans(spans: Seq<Seq<char>>) -> Seq<char>
    decreases spans.len(),
{
    if spans.len() == 0 {
        Seq::empty()
    } else {
        seq!['\n', ' ', ' ', ' ', ' ', 'i', 'n', ' '] + escape(spans[0]) + block_spans(
            spans.drop_first(),
        )
    }
}

/// The members of the object that holds the fields: each as the quoted key,
/// a colon and the value, with commas between.
pub open spec fn members(fields: Seq<FieldModel>) -> Seq<char>
    decreases fields.len(),
{
    if fields.len() == 0 {
        Seq::empty()
    } else if fields.len() == 1 {
        quoted(fields[0].key) + seq![':'] + value_text(fields[0].value)
    } else {
        quoted(fields[0].key) + seq![':'] + value_text(fields[0].value) + seq![','] + members(
            fields.drop_first(),
        )
    }
}

/// The elements of the array that holds the span chain: each name quoted,
/// with commas between, outermost first.
pub open spec fn elements(spans: Seq<Seq<char>>) -> Seq<char>
    decreases spans.len(),
{
    if spans.len() == 0 {
        Seq::empty()
    } else if spans.len() == 1 {
        quoted(spans[0])
    } else {
        quoted(spans[0]) + seq![','] + elements(spans.drop_first())
    }
}

/// The source file that a record shows, if any.
pub open spec fn shown_file(e: EventModel, c: Config) -> Option<Seq<char>> {
    if c.show_file_location {
        e.file
    } else {
        None
    }
}

/// The source line that a record shows, if any.
pub open spec fn shown_line(e: EventModel, c: Config) -> Option<nat> {
    if c.show_line_number {
        e.line
    } else {
        None
    }
}

/// The time, then the level where it is shown.
pub open spec fn part_lead(e: EventModel, c: Config) -> Seq<char> {
    decimal(e.timestamp) + seq![' '] + (if c.show_level {
        level_text(e.severity, c.color_in_effect()) + seq![' ']
    } else {
        Seq::empty()
    })
}

/// The thread's name and its id, each where it is shown.
pub open spec fn part_thread(e: EventModel, c: Config) -> Seq<char> {
    (if c.show_thread_name {
        escape(e.thread_name) + seq![' ']
    } else {
        Seq::empty()
    }) + (if c.show_thread_id {
        seq!['T', 'h', 'r', 'e', 'a', 'd', 'I', 'd', '('] + decimal(e.thread_id) + seq![')', ' ']
    } else {
        Seq::empty()
    })
}

/// The target where it is shown.
pub open spec fn part_target(e: EventModel, c: Config) -> Seq<char> {
    if c.show_target {
        escape(e.target) + seq![':', ' ']
    } else {
        Seq::empty()
    }
}

/// The source file and line, each where it is shown and known, each
/// followed by a colon.
pub open spec fn part_location(e: EventModel, c: Config) -> Seq<char> {
    (match shown_file(e, c) {
        Some(f) => escape(f) + seq![':'],
        None => Seq::empty(),
    }) + (match shown_line(e, c) {
        Some(l) => decimal(l) + seq![':'],
        None => Seq::empty(),
    })
}

/// The one-line layout: time, level, thread, span chain, target, source
/// location, message, fields.
pub open spec fn compact_text(e: EventModel, c: Config) -> Seq<char> {
    part_lead(e, c) + part_thread(e, c) + inline_spans(e.spans) + (if e.spans.len() > 0 {
        seq![' ']
    } else {
        Seq::empty()
    }) + part_target(e, c) + part_location(e, c) + (if shown_file(e, c) is Some || shown_line(
        e,
        c,
    ) is Some {
        seq![' ']
    } else {
        Seq::empty()
    }) + escape(e.message) + inline_fields(e.fields)
}

/// The multi-line layout: a first line with time, level, target, message
/// and fields; then a line for the source location, a line for the thread,
/// and a line for each span, where there is anything to show.
pub open spec fn pretty_text(e: EventModel, c: Config) -> Seq<char> {
    part_lead(e, c) + part_target(e, c) + escape(e.message) + inline_fields(e.fields) + (if shown_file(
        e,
        c,
    ) is Some || shown_line(e, c) is Some {
        seq!['\n', ' ', ' ', ' ', ' ', 'a', 't', ' '] + part_location(e, c)
    } else {
        Seq::empty()
    }) + (if c.show_thread_name || c.show_thread_id {
        seq!['\n', ' ', ' ', ' ', ' ', 'o', 'n', ' '] + part_thread(e, c)
    } else {
        Seq::empty()
    }) + block_spans(e.spans)
}

/// The level member of a structured record and the comma behind it, where
/// the level is shown.
pub open spec fn structured_level(level: Option<Severity>) -> Seq<char> {
    match level {
        Some(s) => "\"level\":"@ + quoted(s.label()) + seq![','],
        None => Seq::empty(),
    }
}

/// The message and the fields of a structured record.
pub open spec fn structured_body(message: Seq<char>, fields: Seq<FieldModel>) -> Seq<char> {
    "\"message\":"@ + quoted(message) + ",\"fields\":{"@ + members(fields) + seq!['}']
}

/// The start of a structured record: the level where it is shown, the
/// message and the fields.
pub open spec fn structured_head(
    level: Option<Severity>,
    message: Seq<char>,
    fields: Seq<FieldModel>,
) -> Seq<char> {
    seq!['{'] + structured_level(level) + structured_body(message, fields)
}

/// The time, the span chain and, where it is shown, the target of a
/// structured record.
pub open spec fn structured_scope(e: EventModel, c: Config) -> Seq<char> {
    ",\"timestamp\":"@ + decimal(e.timestamp) + ",\"spans\":["@ + elements(e.spans) + seq![']']
        + (if c.show_target {
        ",\"target\":"@ + quoted(e.target)
    } else {
        Seq::empty()
    })
}

/// The source location of a structured record, as far as it is shown and
/// known.
pub open spec fn structured_location(e: EventModel, c: Config) -> Seq<char> {
    (match shown_file(e, c) {
        Some(f) => ",\"file\":"@ + quoted(f),
        None => Seq::empty(),
    }) + (match shown_line(e, c) {
        Some(l) => ",\"line\":"@ + decimal(l),
        None => Seq::empty(),
    })
}

/// The thread identity of a structured record, as far as it is shown.
pub open spec fn structured_thread(e: EventModel, c: Config) -> Seq<char> {
    (if c.show_thread_id {
        ",\"thread_id\":"@ + decimal(e.thread_id)
    } else {
        Seq::empty()
    }) + (if c.show_thread_name {
        ",\"thread_name\":"@ + quoted(e.thread_name)
    } else {
        Seq::empty()
    })
}

/// The rest of a structured record: time, span chain, and each of target,
/// source location and thread identity where it is shown.
pub open spec fn structured_tail(e: EventModel, c: Config) -> Seq<char> {
    structured_scope(e, c) + structured_location(e, c) + structured_thread(e, c) + seq!['}']
}

/// The level that a structured record carries, if any.
pub open spec fn shown_level(e: EventModel, c: Config) -> Option<Severity> {
    if c.show_level {
        Some(e.severity)
    } else {
        None
    }
}

/// The structured layout: one object, written without line breaks and
/// without colour.
pub open spec fn structured_text(e: EventModel, c: Config) -> Seq<char> {
    structured_head(shown_level(e, c), e.message, e.fields) + structured_tail(e, c)
}

/// The text of a record in the layout that the options select.
pub open spec fn rendered(e: EventModel, c: Config) -> Seq<char> {
    match c.layout {
        Layout::Compact => compact_text(e, c),
        Layout::Pretty => pretty_text(e, c),
        Layout::Structured => structured_text(e, c),
    }
}

fn push_quoted(out: &mut Vec<char>, s: &str)
    ensures
        final(out)@ == old(out)@ + quoted(s@),
{
    out.push('"');
    let chars = chars_of(s);
    push_escaped(out, &chars);
    out.push('"');
    assert(final(out)@ =~= old(out)@ + quoted(s@));
}

fn push_plain(out: &mut Vec<char>, s: &str)
    ensures
        final(out)@ == old(out)@ + escape(s@),
{
    let chars = chars_of(s);
    push_escaped(out, &chars);
}

fn push_level(out: &mut Vec<char>, severity: Severity, colored: bool)
    ensures
        final(out)@ == old(out)@ + level_text(severity, colored),
{
    if colored {
        out.push('\u{1b}');
        out.push('[');
        out.push('3');
        out.push(
            match severity {
                Severity::Trace => '5',
                Severity::Debug => '4',
                Severity::Info => '2',
                Severity::Warn => '3',
                Severity::Error => '1',
            },
        );
        out.push('m');
        severity.push_label(out);
        out.push('\u{1b}');
        out.push('[');
        out.push('0');
        out.push('m');
    } else {
        severity.push_label(out);
    }
    assert(final(out)@ =~= old(out)@ + level_text(severity, colored));
}

fn push_value(out: &mut Vec<char>, v: &FieldValue)
    ensures
        final(out)@ == old(out)@ + value_text(v@),
{
    match v {
        FieldValue::Str(s) => {
            push_quoted(out, s.as_str());
        },
        FieldValue::Int(n) => {
            push_signed_decimal(out, *n);
        },
        FieldValue::Bool(b) => {
            if *b {
                out.push('t');
                out.push('r');
                out.push('u');
                out.push('e');
            } else {
                out.push('f');
                out.push('a');
                out.push('l');
                out.push('s');
                out.push('e');
            }
            assert(final(out)@ =~= old(out)@ + value_text(v@));
        },
    }
}

fn push_inline_fields(out: &mut Vec<char>, fields: &Vec<Field>, from: usize)
    requires
        from <= fields.len(),
    ensures
        final(out)@ == old(out)@ + inline_fields(fields_of(fields@).skip(from as int)),
    decreases fields.len() - from,
{
    let ghost rest = fields_of(fields@).skip(from as int);
    if from < fields.len() {
        out.push(' ');
        push_plain(out, fields[from].key.as_str());
        out.push('=');
        push_value(out, &fields[from].value);
        push_inline_fields(out, fields, from + 1);
        assert(rest.drop_first() =~= fields_of(fields@).skip(from + 1));
        assert(final(out)@ =~= old(out)@ + inline_fields(rest));
    } else {
        assert(final(out)@ =~= old(out)@ + inline_fields(rest));
    }
}

fn push_members(out: &mut Vec<char>, fields: &Vec<Field>, from: usize)
    requires
        from <= fields.len(),
    ensures
        final(out)@ == old(out)@ + members(fields_of(fields@).skip(from as int)),
    decreases fields.len() - from,
{
    let ghost rest = fields_of(fields@).skip(from as int);
    if from < fields.len() {
        push_quoted(out, fields[from].key.as_str());
        out.push(':');
        push_value(out, &fields[from].value);
        if from + 1 < fields.len() {
            out.push(',');
            push_members(out, fields, from + 1);
            assert(rest.drop_first() =~= fields_of(fields@).skip(from + 1));
        }
        assert(final(out)@ =~= old(out)@ + members(rest));
    } else {
        assert(final(out)@ =~= old(out)@ + members(rest));
    }
}

fn push_inline_spans(out: &mut Vec<char>, spans: &Vec<String>, from: usize)
    requires
        from <= spans.len(),
    ensures
        final(out)@ == old(out)@ + inline_spans(texts_of(spans@).skip(from as int)),
    decreases spans.len() - from,
{
    let ghost rest = texts_of(spans@).skip(from as int);
    if from < spans.len() {
        push_plain(out, spans[from].as_str());
        out.push(':');
        push_inline_spans(out, spans, from + 1);
        assert(rest.drop_first() =~= texts_of(spans@).skip(from + 1));
        assert(final(out)@ =~= old(out)@ + inline_spans(rest));
    } else {
        assert(final(out)@ =~= old(out)@ + inline_spans(rest));
    }
}

fn push_block_spans(out: &mut Vec<char>, spans: &Vec<String>, from: usize)
    requires
        from <= spans.len(),
    ensures
        final(out)@ == old(out)@ + block_spans(texts_of(spans@).skip(from as int)),
    decreases spans.len() - from,
{
    let ghost rest = texts_of(spans@).skip(from as int);
    if from < spans.len() {
        out.push('\n');
        out.push(' ');
        out.push(' ');
        out.push(' ');
        out.push(' ');
        out.push('i');
        out.push('n');
        out.push(' ');
        push_plain(out, spans[from].as_str());
        push_block_spans(out, spans, from + 1);
        assert(rest.drop_first() =~= texts_of(spans@).skip(from + 1));
        assert(final(out)@ =~= old(out)@ + block_spans(rest));
    } else {
        assert(final(out)@ =~= old(out)@ + block_spans(rest));
    }
}

fn push_elements(out: &mut Vec<char>, spans: &Vec<String>, from: usize)
    requires
        from <= spans.len(),
    ensures
        final(out)@ == old(out)@ + elements(texts_of(spans@).skip(from as int)),
    decreases spans.len() - from,
{
    let ghost rest = texts_of(spans@).skip(from as int);
    if from < spans.len() {
        push_quoted(out, spans[from].as_str());
        if from + 1 < spans.len() {
            out.push(',');
            push_elements(out, spans, from + 1);
            assert(rest.drop_first() =~= texts_of(spans@).skip(from + 1));
        }
        assert(final(out)@ =~= old(out)@ + elements(rest));
    } else {
        assert(final(out)@ =~= old(out)@ + elements(rest));
    }
}

fn push_lead(out: &mut Vec<char>, e: &Event, c: &Config)
    ensures
        final(out)@ == old(out)@ + part_lead(e@, *c),
{
    push_decimal(out, e.timestamp);
    out.push(' ');
    if c.show_level {
        push_level(out, e.severity, c.colored());
        out.push(' ');
    }
    assert(final(out)@ =~= old(out)@ + part_lead(e@, *c));
}

fn push_thread(out: &mut Vec<char>, e: &Event, c: &Config)
    ensures
        final(out)@ == old(out)@ + part_thread(e@, *c),
{
    if c.show_thread_name {
        push_plain(out, e.thread_name.as_str());
        out.push(' ');
    }
    if c.show_thread_id {
        out.push('T');
        out.push('h');
        out.push('r');
        out.push('e');
        out.push('a');
        out.push('d');
        out.push('I');
        out.push('d');
        out.push('(');
        push_decimal(out, e.thread_id);
        out.push(')');
        out.push(' ');
    }
    assert(final(out)@ =~= old(out)@ + part_thread(e@, *c));
}

fn push_target(out: &mut Vec<char>, e: &Event, c: &Config)
    ensures
        final(out)@ == old(out)@ + part_target(e@, *c),
{
    if c.show_target {
        push_plain(out, e.target.as_str());
        out.push(':');
        out.push(' ');
    }
    assert(final(out)@ =~= old(out)@ + part_target(e@, *c));
}

fn push_location(out: &mut Vec<char>, e: &Event, c: &Config) -> (any: bool)
    ensures
        final(out)@ == old(out)@ + part_location(e@, *c),
        any == (shown_file(e@, *c) is Some || shown_line(e@, *c) is Some),
{
    let mut any = false;
    if c.show_file_location {
        if let Some(f) = &e.file {
            push_plain(out, f.as_str());
            out.push(':');
            any = true;
        }
    }
    if c.show_line_number {
        if let Some(l) = e.line {
            push_decimal(out, l as u64);
            out.push(':');
            any = true;
        }
    }
    assert(final(out)@ =~= old(out)@ + part_location(e@, *c));
    any
}

fn has_location(e: &Event, c: &Config) -> (any: bool)
    ensures
        any == (shown_file(e@, *c) is Some || shown_line(e@, *c) is Some),
{
    (c.show_file_location && e.file.is_some()) || (c.show_line_number && e.line.is_some())
}

/// Renders an event in the one-line layout.
pub fn render_compact(e: &Event, c: &Config) -> (out: Vec<char>)
    ensures
        out@ == compact_text(e@, *c),
{
    let mut out: Vec<char> = Vec::new();
    push_lead(&mut out, e, c);
    push_thread(&mut out, e, c);
    push_inline_spans(&mut out, &e.spans, 0);
    assert(texts_of(e.spans@).skip(0) =~= e@.spans);
    if e.spans.len() > 0 {
        out.push(' ');
    }
    push_target(&mut out, e, c);
    let any = push_location(&mut out, e, c);
    if any {
        out.push(' ');
    }
    push_plain(&mut out, e.message.as_str());
    push_inline_fields(&mut out, &e.fields, 0);
    assert(fields_of(e.fields@).skip(0) =~= e@.fields);
    assert(out@ =~= compact_text(e@, *c));
    out
}

/// Renders an event in the multi-line layout.
pub fn render_pretty(e: &Event, c: &Config) -> (out: Vec<char>)
    ensures
        out@ == pretty_text(e@, *c),
{
    let mut out: Vec<char> = Vec::new();
    push_lead(&mut out, e, c);
    push_target(&mut out, e, c);
    push_plain(&mut out, e.message.as_str());
    push_inline_fields(&mut out, &e.fields, 0);
    assert(fields_of(e.fields@).skip(0) =~= e@.fields);
    if has_location(e, c) {
        push_str(&mut out, "\n    at ");
        proof {
            reveal_strlit("\n    at ");
            assert("\n    at "@ =~= seq!['\n', ' ', ' ', ' ', ' ', 'a', 't', ' ']);
        }
        let _ = push_location(&mut out, e, c);
    }
    if c.show_thread_name || c.show_thread_id {
        push_str(&mut out, "\n    on ");
        proof {
            reveal_strlit("\n    on ");
            assert("\n    on "@ =~= seq!['\n', ' ', ' ', ' ', ' ', 'o', 'n', ' ']);
        }
        push_thread(&mut out, e, c);
    }
    push_block_spans(&mut out, &e.spans, 0);
    assert(texts_of(e.spans@).skip(0) =~= e@.spans);
    assert(out@ =~= pretty_text(e@, *c));
    out
}

fn push_structured_head(
    out: &mut Vec<char>,
    level: Option<Severity>,
    message: &str,
    fields: &Vec<Field>,
)
    ensures
        final(out)@ == old(out)@ + structured_head(level, message@, fields_of(fields@)),
{
    out.push('{');
    if let Some(s) = level {
        push_str(out, "\"level\":");
        out.push('"');
        let mut name: Vec<char> = Vec::new();
        s.push_label(&mut name);
        assert(name@ =~= s.label());
        push_escaped(out, &name);
        out.push('"');
        out.push(',');
    }
    push_str(out, "\"message\":");
    push_quoted(out, message);
    push_str(out, ",\"fields\":{");
    push_members(out, fields, 0);
    assert(fields_of(fields@).skip(0) =~= fields_of(fields@));
    out.push('}');
    assert(final(out)@ =~= old(out)@ + structured_head(level, message@, fields_of(fields@)));
}

fn push_structured_scope(out: &mut Vec<char>, e: &Event, c: &Config)
    ensures
        final(out)@ == old(out)@ + structured_scope(e@, *c),
{
    push_str(out, ",\"timestamp\":");
    push_decimal(out, e.timestamp);
    push_str(out, ",\"spans\":[");
    push_elements(out, &e.spans, 0);
    assert(texts_of(e.spans@).skip(0) =~= e@.spans);
    out.push(']');
    if c.show_target {
        push_str(out, ",\"target\":");
        push_quoted(out, e.target.as_str());
    }
    assert(final(out)@ =~= old(out)@ + structured_scope(e@, *c));
}

fn push_structured_location(out: &mut Vec<char>, e: &Event, c: &Config)
    ensures
        final(out)@ == old(out)@ + structured_location(e@, *c),
{
    if c.show_file_location {
        if let Some(f) = &e.file {
            push_str(out, ",\"file\":");
            push_quoted(out, f.as_str());
        }
    }
    if c.show_line_number {
        if let Some(l) = e.line {
            push_str(out, ",\"line\":");
            push_decimal(out, l as u64);
        }
    }
    assert(final(out)@ =~= old(out)@ + structured_location(e@, *c));
}

fn push_structured_thread(out: &mut Vec<char>, e: &Event, c: &Config)
    ensures
        final(out)@ == old(out)@ + structured_thread(e@, *c),
{
    if c.show_thread_id {
        push_str(out, ",\"thread_id\":");
        push_decimal(out, e.thread_id);
    }
    if c.show_thread_name {
        push_str(out, ",\"thread_name\":");
        push_quoted(out, e.thread_name.as_str());
    }
    assert(final(out)@ =~= old(out)@ + structured_thread(e@, *c));
}

fn push_structured_tail(out: &mut Vec<char>, e: &Event, c: &Config)
    ensures
        final(out)@ == old(out)@ + structured_tail(e@, *c),
{
    push_structured_scope(out, e, c);
    push_structured_location(out, e, c);
    push_structured_thread(out, e, c);
    out.push('}');
    assert(final(out)@ =~= old(out)@ + structured_tail(e@, *c));
}

/// Renders an event in the structured layout.
pub fn render_structured(e: &Event, c: &Config) -> (out: Vec<char>)
    ensures
        out@ == structured_text(e@, *c),
{
    let mut out: Vec<char> = Vec::new();
    let level = if c.show_level {
        Some(e.severity)
    } else {
        None
    };
    push_structured_head(&mut out, level, e.message.as_str(), &e.fields);
    push_structured_tail(&mut out, e, c);
    assert(out@ =~= structured_text(e@, *c));
    out
}

/// Renders an event as text, in the layout and with the details that the
/// options select.
pub fn render(e: &Event, c: &Config) -> (text: String)
    ensures
        text@ == rendered(e@, *c),
{
    let chars = match c.layout {
        Layout::Compact => render_compact(e, c),
        Layout::Pretty => render_pretty(e, c),
        Layout::Structured => render_structured(e, c),
    };
    string_of(&chars)
}

} // verus!
