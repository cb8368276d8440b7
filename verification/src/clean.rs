//! What a rendered record never holds: an ANSI escape where colour is not
//! in effect, and a line break in the layouts of one line.

use vstd::prelude::*;
use crate::config::{Config, Layout};
use crate::event::{EventModel, FieldModel, ValueModel};
use crate::format::{
    block_spans, compact_text, elements, inline_fields, inline_spans, level_text, members,
    part_lead, part_location, part_target, part_thread, pretty_text, quoted, rendered,
    shown_file, shown_line, structured_head, structured_location, structured_scope,
    structured_tail, structured_thread, value_text,
};
use crate::severity::Severity;
use crate::text::{
    esc, escape, free_of_escapes, lacks, lemma_decimal_is_clean, lemma_escape_is_clean, never_raw,
};

verus! {

/// A text between quotes holds none of the characters that are never raw.
pub proof fn lemma_quoted_is_clean(s: Seq<char>, bad: char)
    requires
        never_raw(bad),
    ensures
        lacks(quoted(s), bad),
{
    lemma_escape_is_clean(s, bad);
}

/// A severity's name holds none of them, but for the escapes of its colour.
pub proof fn lemma_level_is_clean(severity: Severity, colored: bool, bad: char)
    requires
        never_raw(bad),
        !colored || bad != esc(),
    ensures
        lacks(level_text(severity, colored), bad),
{
}

/// A rendered value holds none of them.
pub proof fn lemma_value_is_clean(v: ValueModel, bad: char)
    requires
        never_raw(bad),
    ensures
        lacks(value_text(v), bad),
{
    match v {
        ValueModel::Str(s) => {
            lemma_quoted_is_clean(s, bad);
        },
        ValueModel::Int(n) => {
            if n < 0 {
                lemma_decimal_is_clean((-n) as nat, bad);
            } else {
                lemma_decimal_is_clean(n as nat, bad);
            }
        },
        ValueModel::Bool(b) => {},
    }
}

/// Fields on one line hold none of them.
pub proof fn lemma_inline_fields_are_clean(fields: Seq<FieldModel>, bad: char)
    requires
        never_raw(bad),
    ensures
        lacks(inline_fields(fields), bad),
    decreases fields.len(),
{
    if fields.len() > 0 {
        lemma_escape_is_clean(fields[0].key, bad);
        lemma_value_is_clean(fields[0].value, bad);
        lemma_inline_fields_are_clean(fields.drop_first(), bad);
    }
}

/// The members of the fields object hold none of them.
pub proof fn lemma_members_are_clean(fields: Seq<FieldModel>, bad: char)
    requires
        never_raw(bad),
    ensures
        lacks(members(fields), bad),
    decreases fields.len(),
{
    if fields.len() > 0 {
        lemma_quoted_is_clean(fields[0].key, bad);
        lemma_value_is_clean(fields[0].value, bad);
        if fields.len() > 1 {
            lemma_members_are_clean(fields.drop_first(), bad);
        }
    }
}

/// A span chain on one line, and one in an array, holds none of them; a
/// span chain on lines of its own holds no escape and no carriage return.
pub proof fn lemma_spans_are_clean(spans: Seq<Seq<char>>, bad: char)
    requires
        never_raw(bad),
    ensures
        lacks(inline_spans(spans), bad),
        lacks(elements(spans), bad),
        bad != '\n' ==> lacks(block_spans(spans), bad),
    decreases spans.len(),
{
    if spans.len() > 0 {
        lemma_escape_is_clean(spans[0], bad);
        lemma_quoted_is_clean(spans[0], bad);
        lemma_spans_are_clean(spans.drop_first(), bad);
    }
}

proof fn lemma_parts_are_clean(e: EventModel, c: Config, bad: char)
    requires
        never_raw(bad),
        !c.color_in_effect() || bad != esc(),
    ensures
        lacks(part_lead(e, c), bad),
        lacks(part_thread(e, c), bad),
        lacks(part_target(e, c), bad),
        lacks(part_location(e, c), bad),
{
    lemma_decimal_is_clean(e.timestamp, bad);
    lemma_decimal_is_clean(e.thread_id, bad);
    lemma_level_is_clean(e.severity, c.color_in_effect(), bad);
    lemma_escape_is_clean(e.thread_name, bad);
    lemma_escape_is_clean(e.target, bad);
    if e.file is Some {
        lemma_escape_is_clean(e.file->0, bad);
    }
    if e.line is Some {
        lemma_decimal_is_clean(e.line->0, bad);
    }
}

/// Two texts without a character give a text without it.
pub proof fn lemma_join_is_clean(a: Seq<char>, b: Seq<char>, bad: char)
    requires
        lacks(a, bad),
        lacks(b, bad),
    ensures
        lacks(a + b, bad),
{
}

proof fn lemma_compact_is_clean(e: EventModel, c: Config, bad: char)
    requires
        never_raw(bad),
        !c.color_in_effect() || bad != esc(),
    ensures
        lacks(compact_text(e, c), bad),
{
    lemma_parts_are_clean(e, c, bad);
    lemma_spans_are_clean(e.spans, bad);
    lemma_escape_is_clean(e.message, bad);
    lemma_inline_fields_are_clean(e.fields, bad);
    let gap = if e.spans.len() > 0 {
        seq![' ']
    } else {
        Seq::<char>::empty()
    };
    let space = if shown_file(e, c) is Some || shown_line(e, c) is Some {
        seq![' ']
    } else {
        Seq::<char>::empty()
    };
    let t1 = part_lead(e, c) + part_thread(e, c);
    let t2 = t1 + inline_spans(e.spans);
    let t3 = t2 + gap;
    let t4 = t3 + part_target(e, c);
    let t5 = t4 + part_location(e, c);
    let t6 = t5 + space;
    let t7 = t6 + escape(e.message);
    lemma_join_is_clean(part_lead(e, c), part_thread(e, c), bad);
    lemma_join_is_clean(t1, inline_spans(e.spans), bad);
    lemma_join_is_clean(t2, gap, bad);
    lemma_join_is_clean(t3, part_target(e, c), bad);
    lemma_join_is_clean(t4, part_location(e, c), bad);
    lemma_join_is_clean(t5, space, bad);
    lemma_join_is_clean(t6, escape(e.message), bad);
    lemma_join_is_clean(t7, inline_fields(e.fields), bad);
}

proof fn lemma_pretty_is_clean(e: EventModel, c: Config, bad: char)
    requires
        never_raw(bad),
        bad != '\n',
        !c.color_in_effect() || bad != esc(),
    ensures
        lacks(pretty_text(e, c), bad),
{
    lemma_parts_are_clean(e, c, bad);
    lemma_spans_are_clean(e.spans, bad);
    lemma_escape_is_clean(e.message, bad);
    lemma_inline_fields_are_clean(e.fields, bad);
}

proof fn lemma_structured_head_is_clean(
    level: Option<Severity>,
    message: Seq<char>,
    fields: Seq<FieldModel>,
    bad: char,
)
    requires
        never_raw(bad),
    ensures
        lacks(structured_head(level, message, fields), bad),
{
    reveal_strlit("\"level\":");
    reveal_strlit("\"message\":");
    reveal_strlit(",\"fields\":{");
    if level is Some {
        lemma_quoted_is_clean(level->0.label(), bad);
    }
    lemma_quoted_is_clean(message, bad);
    lemma_members_are_clean(fields, bad);
}

proof fn lemma_structured_tail_is_clean(e: EventModel, c: Config, bad: char)
    requires
        never_raw(bad),
    ensures
        lacks(structured_tail(e, c), bad),
{
    reveal_strlit(",\"timestamp\":");
    reveal_strlit(",\"spans\":[");
    reveal_strlit(",\"target\":");
    reveal_strlit(",\"file\":");
    reveal_strlit(",\"line\":");
    reveal_strlit(",\"thread_id\":");
    reveal_strlit(",\"thread_name\":");
    lemma_decimal_is_clean(e.timestamp, bad);
    lemma_decimal_is_clean(e.thread_id, bad);
    lemma_spans_are_clean(e.spans, bad);
    lemma_quoted_is_clean(e.target, bad);
    lemma_quoted_is_clean(e.thread_name, bad);
    if e.file is Some {
        lemma_quoted_is_clean(e.file->0, bad);
    }
    if e.line is Some {
        lemma_decimal_is_clean(e.line->0, bad);
    }
    assert(lacks(structured_scope(e, c), bad));
    assert(lacks(structured_location(e, c), bad));
    assert(lacks(structured_thread(e, c), bad));
}

/// A rendered record holds no carriage return; no ANSI escape unless it is
/// coloured, and the structured layout never is; and no line break unless
/// its layout is the multi-line one. This holds whatever the event's texts
/// hold.
pub proof fn rendered_text_is_clean(e: EventModel, c: Config, bad: char)
    requires
        never_raw(bad),
        bad == esc() ==> !c.color_in_effect() || c.layout == Layout::Structured,
        bad == '\n' ==> c.layout != Layout::Pretty,
    ensures
        lacks(rendered(e, c), bad),
{
    match c.layout {
        Layout::Compact => {
            lemma_compact_is_clean(e, c, bad);
        },
        Layout::Pretty => {
            lemma_pretty_is_clean(e, c, bad);
        },
        Layout::Structured => {
            lemma_structured_head_is_clean(
                if c.show_level {
                    Some(e.severity)
                } else {
                    None
                },
                e.message,
                e.fields,
                bad,
            );
            lemma_structured_tail_is_clean(e, c, bad);
        },
    }
}

/// A record rendered for a file holds no ANSI escape character, whether or
/// not colour was asked for, and whatever the event's texts hold: it is the
/// record that is rendered with the colour toggle the other way.
pub proof fn file_output_has_no_escape(e: EventModel, c: Config)
    requires
        c.destination is File,
    ensures
        free_of_escapes(rendered(e, c)),
        rendered(e, c) == rendered(e, Config { use_color: !c.use_color, ..c }),
{
    rendered_text_is_clean(e, c, esc());
    let d = Config { use_color: !c.use_color, ..c };
    assert(part_lead(e, c) == part_lead(e, d));
    assert(part_thread(e, c) == part_thread(e, d));
    assert(part_target(e, c) == part_target(e, d));
    assert(part_location(e, c) == part_location(e, d));
    assert(structured_tail(e, c) == structured_tail(e, d));
}

/// A record of the compact or of the structured layout is one line: it
/// holds no line break, whatever the event's texts hold.
pub proof fn record_is_one_line(e: EventModel, c: Config)
    requires
        c.layout != Layout::Pretty,
    ensures
        lacks(rendered(e, c), '\n'),
        lacks(rendered(e, c), '\r'),
{
    rendered_text_is_clean(e, c, '\n');
    rendered_text_is_clean(e, c, '\r');
}

} // verus!
