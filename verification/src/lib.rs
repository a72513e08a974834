//! Host-side reconstruction of nested trace scopes from a flat stream of
//! decoded device log records, together with the small tracing-style facade
//! that device code is written against.

use vstd::prelude::*;

pub mod codegen;
pub mod decoder;
pub mod field;
pub mod laws;
pub mod location;
pub mod record;
pub mod scope;
pub mod sink;
pub mod text;

verus! {

/// The verbosity of a span or event, from the most serious to the most
/// verbose.
#[derive(Copy, Clone, Debug, PartialEq, Eq, PartialOrd, Ord, Structural)]
pub enum Level {
    /// Designates very serious errors.
    Error,
    /// Designates hazardous situations.
    Warn,
    /// Designates useful information.
    Info,
    /// Designates lower priority information.
    Debug,
    /// Designates very low priority, often extremely verbose, information.
    Trace,
}

impl Level {
    pub const TRACE: Self = Self::Trace;

    pub const DEBUG: Self = Self::Debug;

    pub const INFO: Self = Self::Info;

    pub const WARN: Self = Self::Warn;

    pub const ERROR: Self = Self::Error;

    /// The level's number: 1 for errors up to 5 for traces.
    pub open spec fn rank(self) -> int {
        match self {
            Level::Error => 1,
            Level::Warn => 2,
            Level::Info => 3,
            Level::Debug => 4,
            Level::Trace => 5,
        }
    }

    /// The level's number: 1 for errors up to 5 for traces.
    pub fn number(self) -> (n: u8)
        ensures
            n == self.rank(),
    {
        match self {
            Level::Error => 1,
            Level::Warn => 2,
            Level::Info => 3,
            Level::Debug => 4,
            Level::Trace => 5,
        }
    }
}

/// A span that carries nothing. Device-side logging has no nested spans with
/// attached fields, so code that creates spans compiles against this type,
/// and no span context is kept or logged.
#[derive(Clone, Debug, Default)]
pub struct Span;

/// The guard of an entered span.
pub struct Entered;

impl Span {
    /// The span that stands for no span.
    pub fn none() -> (span: Span)
        ensures
            span == Span,
    {
        Span
    }

    /// The span that is current.
    pub fn current() -> (span: Span)
        ensures
            span == Span,
    {
        Span
    }

    /// Enters the span.
    pub fn enter(&self) -> (guard: Entered)
        ensures
            guard == Entered,
    {
        Entered
    }

    /// Records a field's value, which is dropped, and returns the span.
    pub fn record(&self, _field: &str, _value: &dyn core::fmt::Debug) -> (span: &Span)
        ensures
            span == self,
    {
        self
    }

    /// Whether the span is disabled: it never is.
    pub fn is_disabled(&self) -> (disabled: bool)
        ensures
            !disabled,
    {
        false
    }

    /// Whether the span is the one that stands for no span: the answer is
    /// always no.
    pub fn is_none(&self) -> (none: bool)
        ensures
            !none,
    {
        false
    }

    /// Runs `f` in the span and returns what it returns.
    pub fn in_scope<F, T>(&self, f: F) -> (res: T) where F: FnOnce() -> T
        requires
            f.requires(()),
        ensures
            f.ensures((), res),
    {
        f()
    }
}

impl Drop for Entered {
    fn drop(&mut self)
        opens_invariants none
        no_unwind
    {
    }
}

} // verus!
