//! Events: what is captured when a message is logged.

use vstd::prelude::*;
use crate::severity::Severity;
use crate::text::texts_of;

verus! {

/// The value of a field.
#[derive(Clone, Debug)]
pub enum FieldValue {
    Str(String),
    Int(i64),
    Bool(bool),
}

/// A key with its value.
#[derive(Clone, Debug)]
pub struct Field {
    pub key: String,
    pub value: FieldValue,
}

/// What a [`FieldValue`] stands for.
pub enum ValueModel {
    Str(Seq<char>),
    Int(int),
    Bool(bool),
}

/// What a [`Field`] stands for.
pub struct FieldModel {
    pub key: Seq<char>,
    pub value: ValueModel,
}

impl View for FieldValue {
    type V = ValueModel;

    open spec fn view(&self) -> ValueModel {
        match self {
            FieldValue::Str(s) => ValueModel::Str(s@),
            FieldValue::Int(n) => ValueModel::Int(*n as int),
            FieldValue::Bool(b) => ValueModel::Bool(*b),
        }
    }
}

impl View for Field {
    type V = FieldModel;

    open spec fn view(&self) -> FieldModel {
        FieldModel { key: self.key@, value: self.value@ }
    }
}

/// What a list of fields stands for, in order.
pub open spec fn fields_of(fields: Seq<Field>) -> Seq<FieldModel> {
    Seq::new(fields.len(), |i: int| fields[i]@)
}

/// What the caller observes of its surroundings when it logs a message.
#[derive(Clone, Debug)]
pub struct Context {
    /// Time of the event, in a unit and from an origin of the caller's choice.
    pub timestamp: u64,
    pub thread_id: u64,
    pub thread_name: String,
    /// The module path that the message comes from.
    pub target: String,
    pub file: String,
    pub line: u32,
}

/// A record of one logged message. It is built once and not changed after.
#[derive(Clone, Debug)]
pub struct Event {
    pub severity: Severity,
    pub message: String,
    pub fields: Vec<Field>,
    /// The spans that were entered when the message was logged, outermost
    /// first.
    pub spans: Vec<String>,
    pub timestamp: u64,
    pub thread_id: u64,
    pub thread_name: String,
    pub target: String,
    pub file: Option<String>,
    pub line: Option<u32>,
}

/// What an [`Event`] stands for.
pub struct EventModel {
    pub severity: Severity,
    pub message: Seq<char>,
    pub fields: Seq<FieldModel>,
    pub spans: Seq<Seq<char>>,
    pub timestamp: nat,
    pub thread_id: nat,
    pub thread_name: Seq<char>,
    pub target: Seq<char>,
    pub file: Option<Seq<char>>,
    pub line: Option<nat>,
}

impl View for Event {
    type V = EventModel;

    open spec fn view(&self) -> EventModel {
        EventModel {
            severity: self.severity,
            message: self.message@,
            fields: fields_of(self.fields@),
            spans: texts_of(self.spans@),
            timestamp: self.timestamp as nat,
            thread_id: self.thread_id as nat,
            thread_name: self.thread_name@,
            target: self.target@,
            file: match self.file {
                Some(f) => Some(f@),
                None => None,
            },
            line: match self.line {
                Some(l) => Some(l as nat),
                None => None,
            },
        }
    }
}

/// The event that logging `message` with `fields` gives, under the options
/// `keep_file` and `keep_line`, inside the spans `spans`.
pub open spec fn captured(
    severity: Severity,
    message: Seq<char>,
    fields: Seq<FieldModel>,
    spans: Seq<Seq<char>>,
    context: Context,
    keep_file: bool,
    keep_line: bool,
) -> EventModel {
    EventModel {
        severity,
        message,
        fields,
        spans,
        timestamp: context.timestamp as nat,
        thread_id: context.thread_id as nat,
        thread_name: context.thread_name@,
        target: context.target@,
        file: if keep_file {
            Some(context.file@)
        } else {
            None
        },
        line: if keep_line {
            Some(context.line as nat)
        } else {
            None
        },
    }
}

impl Event {
    /// Builds the event for a message: the source file and the line are
    /// kept only where asked for.
    pub fn capture(
        severity: Severity,
        message: &str,
        fields: Vec<Field>,
        spans: Vec<String>,
        context: &Context,
        keep_file: bool,
        keep_line: bool,
    ) -> (e: Event)
        ensures
            e@ == captured(
                severity,
                message@,
                fields_of(fields@),
                texts_of(spans@),
                *context,
                keep_file,
                keep_line,
            ),
    {
        Event {
            severity,
            message: message.to_owned(),
            fields,
            spans,
            timestamp: context.timestamp,
            thread_id: context.thread_id,
            thread_name: context.thread_name.clone(),
            target: context.target.clone(),
            file: if keep_file {
                Some(context.file.clone())
            } else {
                None
            },
            line: if keep_line {
                Some(context.line)
            } else {
                None
            },
        }
    }
}

} // verus!
