//! Severities and the level filter.

use vstd::prelude::*;
use crate::text::same_chars;

verus! {

/// The importance of an event. The variants are listed from least to most
/// severe.
#[derive(Clone, Copy, Debug, PartialEq, Eq, Structural)]
pub enum Severity {
    Trace,
    Debug,
    Info,
    Warn,
    Error,
}

impl Severity {
    /// Position in the total order `Trace < Debug < Info < Warn < Error`.
    pub open spec fn rank(self) -> nat {
        match self {
            Severity::Trace => 0,
            Severity::Debug => 1,
            Severity::Info => 2,
            Severity::Warn => 3,
            Severity::Error => 4,
        }
    }

    /// `self` is at least as severe as `other`.
    pub open spec fn at_least(self, other: Severity) -> bool {
        self.rank() >= other.rank()
    }

    /// The name that stands for the severity in a rendered record.
    pub open spec fn label(self) -> Seq<char> {
        match self {
            Severity::Trace => seq!['T', 'R', 'A', 'C', 'E'],
            Severity::Debug => seq!['D', 'E', 'B', 'U', 'G'],
            Severity::Info => seq!['I', 'N', 'F', 'O'],
            Severity::Warn => seq!['W', 'A', 'R', 'N'],
            Severity::Error => seq!['E', 'R', 'R', 'O', 'R'],
        }
    }

    /// Appends the severity's name.
    pub fn push_label(self, out: &mut Vec<char>)
        ensures
            final(out)@ == old(out)@ + self.label(),
    {
        match self {
            Severity::Trace => {
                out.push('T');
                out.push('R');
                out.push('A');
                out.push('C');
                out.push('E');
            },
            Severity::Debug => {
                out.push('D');
                out.push('E');
                out.push('B');
                out.push('U');
                out.push('G');
            },
            Severity::Info => {
                out.push('I');
                out.push('N');
                out.push('F');
                out.push('O');
            },
            Severity::Warn => {
                out.push('W');
                out.push('A');
                out.push('R');
                out.push('N');
            },
            Severity::Error => {
                out.push('E');
                out.push('R');
                out.push('R');
                out.push('O');
                out.push('R');
            },
        }
        assert(final(out)@ =~= old(out)@ + self.label());
    }

    /// The severity that a name stands for, if any.
    pub open spec fn from_label(name: Seq<char>) -> Option<Severity> {
        if name == Severity::Trace.label() {
            Some(Severity::Trace)
        } else if name == Severity::Debug.label() {
            Some(Severity::Debug)
        } else if name == Severity::Info.label() {
            Some(Severity::Info)
        } else if name == Severity::Warn.label() {
            Some(Severity::Warn)
        } else if name == Severity::Error.label() {
            Some(Severity::Error)
        } else {
            None
        }
    }

    /// Reading a severity's name gives the severity back.
    pub proof fn label_round_trip(self)
        ensures
            Severity::from_label(self.label()) == Some(self),
    {
        assert(Severity::Trace.label()[0] == 'T');
        assert(Severity::Debug.label()[0] == 'D');
        assert(Severity::Info.label()[0] == 'I');
        assert(Severity::Warn.label()[0] == 'W');
        assert(Severity::Error.label()[0] == 'E');
        assert(Severity::Trace.label().len() == 5);
        assert(Severity::Error.label().len() == 5);
        assert(Severity::Trace.label()[0] != Severity::Error.label()[0]);
    }

    /// The executable counterpart of [`Severity::from_label`].
    pub fn parse_label(name: &Vec<char>) -> (r: Option<Severity>)
        ensures
            r == Severity::from_label(name@),
    {
        let mut probe: Vec<char> = Vec::new();
        Severity::Trace.push_label(&mut probe);
        if same_chars(name, &probe) {
            return Some(Severity::Trace);
        }
        let mut probe: Vec<char> = Vec::new();
        Severity::Debug.push_label(&mut probe);
        if same_chars(name, &probe) {
            return Some(Severity::Debug);
        }
        let mut probe: Vec<char> = Vec::new();
        Severity::Info.push_label(&mut probe);
        if same_chars(name, &probe) {
            return Some(Severity::Info);
        }
        let mut probe: Vec<char> = Vec::new();
        Severity::Warn.push_label(&mut probe);
        if same_chars(name, &probe) {
            return Some(Severity::Warn);
        }
        let mut probe: Vec<char> = Vec::new();
        Severity::Error.push_label(&mut probe);
        if same_chars(name, &probe) {
            return Some(Severity::Error);
        }
        None
    }

    /// The executable counterpart of [`Severity::rank`].
    pub fn ordinal(self) -> (r: u8)
        ensures
            r as nat == self.rank(),
            r <= 4,
    {
        match self {
            Severity::Trace => 0,
            Severity::Debug => 1,
            Severity::Info => 2,
            Severity::Warn => 3,
            Severity::Error => 4,
        }
    }
}

/// The minimum severity that applies when none is configured.
pub open spec fn default_minimum() -> Severity {
    Severity::Info
}

/// The minimum in force: the configured one, or [`default_minimum`].
pub open spec fn effective_minimum(configured: Option<Severity>) -> Severity {
    match configured {
        Some(m) => m,
        None => default_minimum(),
    }
}

/// The level filter: an event is kept exactly when its severity is at least
/// the minimum in force.
pub fn should_emit(severity: Severity, configured_minimum: Option<Severity>) -> (keep: bool)
    ensures
        keep == severity.at_least(effective_minimum(configured_minimum)),
{
    let minimum = match configured_minimum {
        Some(m) => m,
        None => Severity::Info,
    };
    severity.ordinal() >= minimum.ordinal()
}

/// The order on severities is total: reflexive, antisymmetric, transitive,
/// and any two severities are comparable.
pub proof fn severity_order_is_total(a: Severity, b: Severity, c: Severity)
    ensures
        a.at_least(a),
        a.at_least(b) && b.at_least(a) ==> a == b,
        a.at_least(b) && b.at_least(c) ==> a.at_least(c),
        a.at_least(b) || b.at_least(a),
        Severity::Error.at_least(a) && a.at_least(Severity::Trace),
{
}

} // verus!
