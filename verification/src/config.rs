//! The options that shape a rendered record.

use vstd::prelude::*;
use crate::severity::{Severity, effective_minimum};

verus! {

/// The structure of a rendered record. Exactly one layout is active.
#[derive(Clone, Copy, Debug, PartialEq, Eq, Structural)]
pub enum Layout {
    /// One line per record.
    Compact,
    /// Several lines per record, one detail per line.
    Pretty,
    /// One self-delimited object per line, for machines to read.
    Structured,
}

/// Where rendered records go.
#[derive(Clone, Debug)]
pub enum Destination {
    Console,
    /// An append-only text file at the given path.
    File(String),
}

/// The options, fixed when logging is set up.
#[derive(Clone, Debug)]
pub struct Config {
    /// Events below this severity are dropped; `None` stands for the default.
    pub minimum_level: Option<Severity>,
    pub show_level: bool,
    pub use_color: bool,
    pub show_file_location: bool,
    pub show_line_number: bool,
    pub show_target: bool,
    pub show_thread_id: bool,
    pub show_thread_name: bool,
    pub layout: Layout,
    pub destination: Destination,
}

impl Config {
    /// Whether ANSI colour codes are written: only on request, and never to
    /// a file.
    pub open spec fn color_in_effect(&self) -> bool {
        self.use_color && self.destination is Console
    }

    /// The executable counterpart of [`Config::color_in_effect`].
    pub fn colored(&self) -> (yes: bool)
        ensures
            yes == self.color_in_effect(),
    {
        match self.destination {
            Destination::Console => self.use_color,
            Destination::File(_) => false,
        }
    }

    /// The minimum level in force.
    pub fn minimum(&self) -> (m: Severity)
        ensures
            m == effective_minimum(self.minimum_level),
    {
        match self.minimum_level {
            Some(m) => m,
            None => Severity::Info,
        }
    }

    /// The defaults: minimum level INFO, the level shown, colour on, the
    /// target shown, no source location, no thread identity, compact
    /// layout, console.
    pub fn new() -> (c: Config)
        ensures
            c.minimum_level == Some(Severity::Info),
            c.show_level,
            c.use_color,
            !c.show_file_location,
            !c.show_line_number,
            c.show_target,
            !c.show_thread_id,
            !c.show_thread_name,
            c.layout == Layout::Compact,
            c.destination is Console,
    {
        Config {
            minimum_level: Some(Severity::Info),
            show_level: true,
            use_color: true,
            show_file_location: false,
            show_line_number: false,
            show_target: true,
            show_thread_id: false,
            show_thread_name: false,
            layout: Layout::Compact,
            destination: Destination::Console,
        }
    }
}

} // verus!
