//! Errors of the front end.
use vstd::prelude::*;
use crate::span::{span_view, Span, SpanV};
use crate::text::{copy_opt_text, opt_text};

verus! {

/// The code of a parse or module error.
#[derive(Debug, Clone, Copy, PartialEq, Eq, Structural)]
pub enum ParseErrorCode {
    P0001,
}

/// The code of a type error.
#[derive(Debug, Clone, Copy, PartialEq, Eq, Structural)]
pub enum TypeErrorCode {
    T0001,
    T0002,
    T0003,
    T0004,
    T0005,
    T0006,
    T0008,
    T0012,
    T0014,
    T0015,
    T0016,
    T0019,
    T0021,
    T0023,
    T0024,
}

/// The code of a run-time failure.
#[derive(Debug, Clone, Copy, PartialEq, Eq, Structural)]
pub enum RuntimeErrorCode {
    R0009,
    R0013,
}

/// Why a module was rejected, or why a program stopped.
#[derive(Debug, PartialEq, Eq)]
#[allow(inconsistent_fields)]
pub enum MetelError {
    ParseError { code: ParseErrorCode, message: String, start: usize, end: usize, filename: String, line: u32, col: u32, source_line: Option<String> },
    TypeError { code: TypeErrorCode, message: String, span: Span },
    /// A failure of a running program.
    Panic { code: RuntimeErrorCode, message: String, span: Span },
    /// A broken promise of an earlier phase.
    Internal { message: String },
}

/// The value of a [`MetelError`] as a mathematical object.
#[allow(inconsistent_fields)]
pub ghost enum MetelErrorV {
    ParseError { code: ParseErrorCode, message: Seq<char>, start: usize, end: usize, filename: Seq<char>, line: u32, col: u32, source_line: Option<Seq<char>> },
    TypeError { code: TypeErrorCode, message: Seq<char>, span: SpanV },
    Panic { code: RuntimeErrorCode, message: Seq<char>, span: SpanV },
    Internal { message: Seq<char> },
}

/// The view of a [`MetelError`].
pub open spec fn metel_error_view(t: MetelError) -> MetelErrorV
    decreases t,
{
    match t {
        MetelError::ParseError { code, message, start, end, filename, line, col, source_line } => MetelErrorV::ParseError { code, message: message@, start, end, filename: filename@, line, col, source_line: opt_text(source_line) },
        MetelError::TypeError { code, message, span } => MetelErrorV::TypeError { code, message: message@, span: span_view(span) },
        MetelError::Panic { code, message, span } => MetelErrorV::Panic { code, message: message@, span: span_view(span) },
        MetelError::Internal { message } => MetelErrorV::Internal { message: message@ },
    }
}

impl View for MetelError {
    type V = MetelErrorV;

    open spec fn view(&self) -> MetelErrorV {
        metel_error_view(*self)
    }
}

impl Clone for MetelError {
    fn clone(&self) -> (r: Self)
        ensures
            r@ == self@,
    {
        self.copy()
    }
}

impl MetelError {
    /// A copy with the same view.
    pub fn copy(&self) -> (r: Self)
        ensures
            r@ == self@,
        decreases *self,
    {
        match self {
            MetelError::ParseError { code, message, start, end, filename, line, col, source_line } => MetelError::ParseError { code: *code, message: message.clone(), start: *start, end: *end, filename: filename.clone(), line: *line, col: *col, source_line: copy_opt_text(source_line) },
            MetelError::TypeError { code, message, span } => MetelError::TypeError { code: *code, message: message.clone(), span: span.copy() },
            MetelError::Panic { code, message, span } => MetelError::Panic { code: *code, message: message.clone(), span: span.copy() },
            MetelError::Internal { message } => MetelError::Internal { message: message.clone() },
        }
    }
}
impl MetelError {
    /// A type error with its code, message and place.
    pub fn type_error(code: TypeErrorCode, message: String, span: &Span) -> (r: Self)
        ensures
            r@ == (MetelErrorV::TypeError { code, message: message@, span: span@ }),
    {
        MetelError::TypeError { code, message, span: span.copy() }
    }

    /// A failure of a running program, with its code, message and place.
    pub fn panic(code: RuntimeErrorCode, message: String, span: &Span) -> (r: Self)
        ensures
            r@ == (MetelErrorV::Panic { code, message: message@, span: span@ }),
    {
        MetelError::Panic { code, message, span: span.copy() }
    }

    /// A broken promise of an earlier phase.
    pub fn internal(message: String) -> (r: Self)
        ensures
            r@ == (MetelErrorV::Internal { message: message@ }),
    {
        MetelError::Internal { message }
    }

    /// What went wrong, in words.
    pub fn describe(&self) -> (r: String)
        ensures
            r@ == error_text(self@),
    {
        match self {
            MetelError::ParseError { message, .. } => message.clone(),
            MetelError::TypeError { message, .. } => message.clone(),
            MetelError::Panic { message, .. } => message.clone(),
            MetelError::Internal { message } => message.clone(),
        }
    }
}

/// What went wrong, in words.
pub open spec fn error_text(e: MetelErrorV) -> Seq<char> {
    match e {
        MetelErrorV::ParseError { message, .. } => message,
        MetelErrorV::TypeError { message, .. } => message,
        MetelErrorV::Panic { message, .. } => message,
        MetelErrorV::Internal { message } => message,
    }
}

/// A type error with its code, message and place.
pub open spec fn type_failure(code: TypeErrorCode, message: Seq<char>, span: SpanV) -> MetelErrorV {
    MetelErrorV::TypeError { code, message, span }
}

/// An error, or none, as a mathematical object.
pub open spec fn opt_error(e: Option<MetelError>) -> Option<MetelErrorV> {
    match e {
        Some(e) => Some(e@),
        None => None,
    }
}

} // verus!
