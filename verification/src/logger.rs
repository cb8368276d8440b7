//! The logger: level filter, span tracker, formatter and sink together, and
//! the one-time set-up of the process-wide logger.

use vstd::prelude::*;
use crate::clean::file_output_has_no_escape;
use crate::config::{Config, Layout};
use crate::event::{Context, Event, Field, FieldModel, captured, fields_of};
use crate::format::{render, rendered};
use crate::parse::{RecordModel, read_record};
use crate::roundtrip::{lemma_fields_are_representable, structured_record_reads_back};
use crate::severity::{Severity, effective_minimum, should_emit};
use crate::sink::{Sink, SinkState, state_after_write};
use crate::span::{ScopeHandle, SpanTracker, entered, exited, nesting_is_last_in_first_out};
use crate::text::{free_of_escapes, texts_of};

verus! {

/// A logger of one thread: its options, the spans it is in, and its sink.
pub struct Logger {
    config: Config,
    spans: SpanTracker,
    sink: Sink,
}

/// The text of the record that a logger with options `config`, inside the
/// spans `chain`, writes for a message.
pub open spec fn record_text(
    config: Config,
    chain: Seq<Seq<char>>,
    severity: Severity,
    message: Seq<char>,
    fields: Seq<FieldModel>,
    context: Context,
) -> Seq<char> {
    rendered(
        captured(
            severity,
            message,
            fields,
            chain,
            context,
            config.show_file_location,
            config.show_line_number,
        ),
        config,
    )
}

/// How logging a message takes a logger from `before` to `after`. The
/// options and the span chain stay. One record is added exactly when the
/// severity passes the level filter and the sink is not closed; it is the
/// text of [`record_text`], and it comes after all that was written before.
pub open spec fn emitted(
    before: Logger,
    after: Logger,
    severity: Severity,
    message: Seq<char>,
    fields: Seq<FieldModel>,
    context: Context,
) -> bool {
    let written = before.keeps(severity) && before.sink_state() != SinkState::Closed;
    &&& after.config() == before.config()
    &&& after.chain() == before.chain()
    &&& after.written().len() == before.written().len() + 1 <==> written
    &&& written ==> after.written() == before.written().push(
        record_text(before.config(), before.chain(), severity, message, fields, context),
    ) && after.sink_state() == SinkState::Open
    &&& !written ==> after.written() == before.written() && after.sink_state()
        == before.sink_state()
}

impl Logger {
    /// The options of the logger. They never change.
    pub closed spec fn config(&self) -> Config {
        self.config
    }

    /// The spans that the logger is in, outermost first.
    pub closed spec fn chain(&self) -> Seq<Seq<char>> {
        self.spans@
    }

    /// The records written so far, oldest first.
    pub closed spec fn written(&self) -> Seq<Seq<char>> {
        self.sink@
    }

    /// The state of the logger's sink.
    pub closed spec fn sink_state(&self) -> SinkState {
        self.sink.spec_state()
    }

    /// Whether the logger keeps an event of the given severity.
    pub open spec fn keeps(&self, severity: Severity) -> bool {
        severity.at_least(effective_minimum(self.config().minimum_level))
    }

    /// A logger with the given options and sink, in no span.
    pub fn new(config: Config, sink: Sink) -> (l: Logger)
        ensures
            l.config() == config,
            l.chain() == Seq::<Seq<char>>::empty(),
            l.written() == sink@,
            l.sink_state() == sink.spec_state(),
    {
        Logger { config, spans: SpanTracker::new(), sink }
    }

    /// Enters a span. Events logged from now on carry its name last in
    /// their chain.
    pub fn enter(&mut self, name: &str) -> (handle: ScopeHandle)
        ensures
            final(self).chain() == entered(old(self).chain(), name@),
            handle.depth() == final(self).chain().len(),
            final(self).config() == old(self).config(),
            final(self).written() == old(self).written(),
            final(self).sink_state() == old(self).sink_state(),
    {
        self.spans.enter(name)
    }

    /// Leaves the innermost span, which `handle` must stand for.
    pub fn exit(&mut self, handle: ScopeHandle)
        requires
            old(self).chain().len() > 0,
            handle.depth() == old(self).chain().len(),
        ensures
            final(self).chain() == exited(old(self).chain()),
            final(self).config() == old(self).config(),
            final(self).written() == old(self).written(),
            final(self).sink_state() == old(self).sink_state(),
    {
        self.spans.exit(handle)
    }

    /// Whether `handle` stands for the innermost span, so that
    /// [`Logger::exit`] accepts it.
    pub fn is_innermost(&self, handle: &ScopeHandle) -> (yes: bool)
        ensures
            yes == (self.chain().len() > 0 && handle.depth() == self.chain().len()),
    {
        self.spans.is_innermost(handle)
    }

    /// A snapshot of the span chain, outermost first.
    pub fn current_chain(&self) -> (chain: Vec<String>)
        ensures
            texts_of(chain@) == self.chain(),
    {
        self.spans.current_chain()
    }

    /// The sink, to read what was written.
    pub fn sink(&self) -> (s: &Sink)
        ensures
            s@ == self.written(),
            s.spec_state() == self.sink_state(),
    {
        &self.sink
    }

    /// Tears the sink down: later events are dropped.
    pub fn shutdown(&mut self)
        ensures
            final(self).sink_state() == SinkState::Closed,
            final(self).written() == old(self).written(),
            final(self).chain() == old(self).chain(),
            final(self).config() == old(self).config(),
    {
        self.sink.close();
    }

    /// Logs a message. An event below the minimum level leaves no trace.
    /// Any other event is rendered, with the span chain as it is now, and
    /// appended to the sink as one record. A closed sink drops the record;
    /// the caller is not told.
    pub fn emit(&mut self, severity: Severity, message: &str, fields: Vec<Field>, context: &Context)
        ensures
            emitted(*old(self), *final(self), severity, message@, fields_of(fields@), *context),
    {
        match self.compose(severity, message, fields, context) {
            Some(text) => {
                self.settle(text, true);
            },
            None => {},
        }
    }

    /// The first half of logging a message, for a caller that writes to the
    /// destination itself: the record to write, or `None` where the event
    /// is below the minimum level or the sink is closed.
    pub fn compose(
        &self,
        severity: Severity,
        message: &str,
        fields: Vec<Field>,
        context: &Context,
    ) -> (text: Option<String>)
        ensures
            text is Some <==> self.keeps(severity) && self.sink_state() != SinkState::Closed,
            text is Some ==> text->0@ == record_text(
                self.config(),
                self.chain(),
                severity,
                message@,
                fields_of(fields@),
                *context,
            ),
    {
        if !should_emit(severity, self.config.minimum_level) {
            return None;
        }
        if self.sink.state() == SinkState::Closed {
            return None;
        }
        let event = Event::capture(
            severity,
            message,
            fields,
            self.spans.current_chain(),
            context,
            self.config.show_file_location,
            self.config.show_line_number,
        );
        Some(render(&event, &self.config))
    }

    /// The second half: `delivered` says whether the destination took
    /// `text`. A record that was delivered is appended to what was written;
    /// one that was not is dropped, and so is any record once the sink is
    /// closed. The caller is not told of either.
    pub fn settle(&mut self, text: String, delivered: bool)
        ensures
            final(self).config() == old(self).config(),
            final(self).chain() == old(self).chain(),
            final(self).sink_state() == state_after_write(old(self).sink_state()),
            final(self).written() == if delivered && old(self).sink_state() != SinkState::Closed {
                old(self).written().push(text@)
            } else {
                old(self).written()
            },
    {
        let _ = self.sink.settle(text, delivered);
    }
}

/// An event logged inside the spans `a` and then `b` records the chain it
/// was logged in followed by `a` and `b`; logged after `b` was left, that
/// chain followed by `a`; logged after `a` was left too, that chain alone.
pub proof fn recorded_chain_follows_nesting(
    base: Seq<Seq<char>>,
    a: Seq<char>,
    b: Seq<char>,
    severity: Severity,
    message: Seq<char>,
    fields: Seq<FieldModel>,
    context: Context,
    keep_file: bool,
    keep_line: bool,
)
    ensures
        captured(
            severity,
            message,
            fields,
            entered(entered(base, a), b),
            context,
            keep_file,
            keep_line,
        ).spans == base + seq![a, b],
        captured(
            severity,
            message,
            fields,
            exited(entered(entered(base, a), b)),
            context,
            keep_file,
            keep_line,
        ).spans == base + seq![a],
        captured(
            severity,
            message,
            fields,
            exited(exited(entered(entered(base, a), b))),
            context,
            keep_file,
            keep_line,
        ).spans == base,
{
    nesting_is_last_in_first_out(base, a, b);
}

/// Whether a logger writes a record for an event depends on the event's
/// severity alone, through the level filter: with a sink that is not
/// closed, logging adds one record exactly when the severity is at least
/// the minimum in force, and nothing otherwise.
pub proof fn output_exactly_at_or_above_minimum(
    before: Logger,
    after: Logger,
    severity: Severity,
    message: Seq<char>,
    fields: Seq<FieldModel>,
    context: Context,
)
    requires
        emitted(before, after, severity, message, fields, context),
        before.sink_state() != SinkState::Closed,
    ensures
        severity.at_least(effective_minimum(before.config().minimum_level))
            <==> after.written().len() == before.written().len() + 1,
        !severity.at_least(effective_minimum(before.config().minimum_level))
            <==> after.written() == before.written(),
{
}

/// A record that a logger writes in the structured layout reads back as
/// the message and the fields that were passed to the logger, and as the
/// severity that was passed where the level is shown.
pub proof fn written_record_reads_back(
    config: Config,
    chain: Seq<Seq<char>>,
    severity: Severity,
    message: Seq<char>,
    fields: Seq<Field>,
    context: Context,
)
    requires
        config.layout == Layout::Structured,
    ensures
        read_record(record_text(config, chain, severity, message, fields_of(fields), context))
            == Some(
            RecordModel {
                severity: if config.show_level {
                    Some(severity)
                } else {
                    None
                },
                message,
                fields: fields_of(fields),
            },
        ),
{
    lemma_fields_are_representable(fields);
    structured_record_reads_back(
        captured(
            severity,
            message,
            fields_of(fields),
            chain,
            context,
            config.show_file_location,
            config.show_line_number,
        ),
        config,
    );
}

/// A record that a logger writes for a file holds no ANSI escape character,
/// whatever the colour toggle says and whatever was passed to the logger.
pub proof fn written_file_record_has_no_escape(
    config: Config,
    chain: Seq<Seq<char>>,
    severity: Severity,
    message: Seq<char>,
    fields: Seq<FieldModel>,
    context: Context,
)
    requires
        config.destination is File,
    ensures
        free_of_escapes(record_text(config, chain, severity, message, fields, context)),
{
    file_output_has_no_escape(
        captured(
            severity,
            message,
            fields,
            chain,
            context,
            config.show_file_location,
            config.show_line_number,
        ),
        config,
    );
}

/// Logging never removes or changes what was written before: the records
/// from before stand in front of the records after.
pub proof fn written_is_only_extended(
    before: Logger,
    after: Logger,
    severity: Severity,
    message: Seq<char>,
    fields: Seq<FieldModel>,
    context: Context,
)
    requires
        emitted(before, after, severity, message, fields, context),
    ensures
        before.written().is_prefix_of(after.written()),
{
}

/// Why setting up the process-wide logger failed.
#[derive(Clone, Copy, Debug, PartialEq, Eq, Structural)]
pub enum InitError {
    /// A logger has been set up before.
    ConfigurationAlreadySet,
    /// The destination could not be created or opened.
    SinkOpenFailure,
}

/// The place of the process-wide logger: empty until the one set-up that
/// succeeds.
pub struct Registry {
    active: Option<Logger>,
}

impl Registry {
    /// Whether a logger has been set up.
    pub closed spec fn is_set(&self) -> bool {
        self.active is Some
    }

    /// The logger that has been set up.
    pub closed spec fn logger(&self) -> Logger
        recommends
            self.is_set(),
    {
        self.active->0
    }

    /// A registry without a logger.
    pub fn new() -> (r: Registry)
        ensures
            !r.is_set(),
    {
        Registry { active: None }
    }

    /// Sets up the logger, once. `sink_ready` says whether the destination
    /// could be opened. A second set-up fails and leaves the first logger as
    /// it is; a destination that could not be opened leaves the registry
    /// without a logger.
    pub fn init(&mut self, config: Config, sink: Sink, sink_ready: bool) -> (r: Result<
        (),
        InitError,
    >)
        ensures
            old(self).is_set() ==> r == Err::<(), InitError>(InitError::ConfigurationAlreadySet)
                && *final(self) == *old(self),
            !old(self).is_set() && !sink_ready ==> r == Err::<(), InitError>(
                InitError::SinkOpenFailure,
            ) && *final(self) == *old(self),
            !old(self).is_set() && sink_ready ==> r is Ok && final(self).is_set() && final(self).logger().config() == config && final(self).logger().chain() == Seq::<
                Seq<char>,
            >::empty() && final(self).logger().written() == sink@ && final(self).logger().sink_state() == sink.spec_state(),
    {
        if self.active.is_some() {
            return Err(InitError::ConfigurationAlreadySet);
        }
        if !sink_ready {
            return Err(InitError::SinkOpenFailure);
        }
        self.active = Some(Logger::new(config, sink));
        Ok(())
    }

    /// The logger, once it has been set up.
    pub fn active(&self) -> (l: Option<&Logger>)
        ensures
            l is Some == self.is_set(),
            l is Some ==> *l->0 == self.logger(),
    {
        self.active.as_ref()
    }

    /// Logs a message through the logger that has been set up, as
    /// [`Logger::emit`] does. Without a logger nothing happens.
    pub fn emit(&mut self, severity: Severity, message: &str, fields: Vec<Field>, context: &Context)
        ensures
            final(self).is_set() == old(self).is_set(),
            !old(self).is_set() ==> *final(self) == *old(self),
            old(self).is_set() ==> emitted(
                old(self).logger(),
                final(self).logger(),
                severity,
                message@,
                fields_of(fields@),
                *context,
            ),
    {
        match self.active.as_mut() {
            Some(l) => {
                l.emit(severity, message, fields, context);
            },
            None => {},
        }
    }
}

} // verus!
