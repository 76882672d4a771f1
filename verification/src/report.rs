//! Span reporters.

use crate::span::Span;
use std::io::Write;
use vstd::prelude::*;

verus! {

/// A reporter consumes Zipkin spans and reports them.
///
/// For example, the reporter may log the span information, or queue it to
/// be sent over the network to a collection service. It is called from
/// span disposal, so it must not block. Applications supply their own
/// implementations, so nothing is assumed of what one does.
pub trait Report {
    /// Reports a span.
    fn report2(&self, span: Span);
}

/// A `Report`er which does nothing.
pub struct NopReporter;

impl Report for NopReporter {
    fn report2(&self, _span: Span) {
    }
}

/// A `Report`er which logs the `Span` on standard error.
///
/// The `Span` is simply logged in its `Debug` representation which is not
/// stable, so this reporter is only useful for testing.
pub struct LoggingReporter;

impl Report for LoggingReporter {
    fn report2(&self, span: Span) {
        log_span(&span);
    }
}

/// Relies on `std::io::Stderr::write_fmt` (through `writeln`): the span's
/// debug form goes to standard error.
#[verifier::external_body]
fn log_span(span: &Span) {
    let mut err = std::io::stderr();
    let _ = writeln!(err, "{:?}", span);
}

} // verus!
