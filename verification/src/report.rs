//! Span reporters.
use crate::span::Span;
use std::sync::Arc;
use vstd::prelude::*;

verus! {

/// A reporter consumes Zipkin spans and reports them.
///
/// For example, the reporter may log the span information to a file, or send
/// it over the network to a collection service. Whatever goes wrong in doing
/// so is the reporter's own concern: `report` returns nothing, and nothing is
/// known of what it does.
pub trait Report {
    /// Reports a span.
    fn report(&self, span: Span);
}

impl<T> Report for Arc<T> where T: ?Sized + Report {
    /// Reports the span to the shared reporter.
    fn report(&self, span: Span)
        ensures
            call_ensures(T::report, (&**self, span), ()),
    {
        (**self).report(span)
    }
}

impl<T> Report for Box<T> where T: ?Sized + Report {
    /// Reports the span to the boxed reporter.
    fn report(&self, span: Span)
        ensures
            call_ensures(T::report, (&**self, span), ()),
    {
        (**self).report(span)
    }
}

/// A `Report`er which does nothing.
pub struct NopReporter;

impl Report for NopReporter {
    fn report(&self, _span: Span) {
    }
}

/// How much the logging facade lets through, from nothing to everything.
#[derive(Clone, Copy, Debug, PartialEq, Eq, Structural)]
pub enum Verbosity {
    Off,
    Error,
    Warn,
    Info,
    Debug,
    Trace,
}

impl Verbosity {
    /// A record at the informational level passes.
    pub open spec fn lets_info_pass(self) -> bool {
        self is Info || self is Debug || self is Trace
    }

    /// Whether a record at the informational level passes.
    pub fn admits_info(self) -> (admitted: bool)
        ensures
            admitted == self.lets_info_pass(),
    {
        match self {
            Verbosity::Info | Verbosity::Debug | Verbosity::Trace => true,
            _ => false,
        }
    }
}

/// Whether a record at the informational level is handed to the logger: the
/// level that the logging facade was built with and the level that the
/// program has set must both let it pass.
pub fn info_enabled(built_with: Verbosity, set_to: Verbosity) -> (enabled: bool)
    ensures
        enabled == (built_with.lets_info_pass() && set_to.lets_info_pass()),
{
    built_with.admits_info() && set_to.admits_info()
}

/// `log::max_level`: the level that the program has set for the moment. It
/// can change between two calls, so nothing is claimed of the result.
#[verifier::external_body]
fn max_level() -> Verbosity {
    match log::max_level() {
        log::LevelFilter::Off => Verbosity::Off,
        log::LevelFilter::Error => Verbosity::Error,
        log::LevelFilter::Warn => Verbosity::Warn,
        log::LevelFilter::Info => Verbosity::Info,
        log::LevelFilter::Debug => Verbosity::Debug,
        log::LevelFilter::Trace => Verbosity::Trace,
    }
}

/// `log::STATIC_MAX_LEVEL`: the level that the logging facade was built
/// with. Nothing is claimed of it.
#[verifier::external_body]
fn static_max_level() -> Verbosity {
    match log::STATIC_MAX_LEVEL {
        log::LevelFilter::Off => Verbosity::Off,
        log::LevelFilter::Error => Verbosity::Error,
        log::LevelFilter::Warn => Verbosity::Warn,
        log::LevelFilter::Info => Verbosity::Info,
        log::LevelFilter::Debug => Verbosity::Debug,
        log::LevelFilter::Trace => Verbosity::Trace,
    }
}

/// `std::fmt::Arguments`: a message that is ready to be formatted. It is
/// only passed on, so nothing is known of what it holds.
#[verifier::external_type_specification]
#[verifier::external_body]
pub struct ExArguments<'a>(std::fmt::Arguments<'a>);

/// Where a formatted message goes on its way to the global logger: the
/// receiver that `write!` needs.
struct InfoRecord;

impl InfoRecord {
    /// `log::Log::log` on `log::logger()`: hands the global logger one record
    /// at the informational level, with `args` as its message. The logger
    /// returns nothing, so nothing is claimed.
    #[verifier::external_body]
    fn write_fmt(&self, args: std::fmt::Arguments<'_>) {
        log::logger().log(
            &log::Record::builder()
                .args(args)
                .level(log::Level::Info)
                .target("zipkin::report")
                .module_path_static(Some("zipkin::report"))
                .build(),
        );
    }
}

/// `write!` with the `Debug` form of `span`: formats the span with the
/// `Debug` impl that `derive` gives it and hands the message to
/// `InfoRecord::write_fmt`. Nothing is returned, so nothing is claimed.
#[verifier::external_body]
fn log_debug_form(span: &Span) {
    write!(InfoRecord, "{:?}", span)
}

/// A `Report`er which logs the `Span` at the `info` level.
///
/// The `Span` is simply logged in its `Debug` representation which is not
/// stable, so this reporter is only useful for testing.
pub struct LoggingReporter;

impl Report for LoggingReporter {
    fn report(&self, span: Span) {
        if info_enabled(static_max_level(), max_level()) {
            log_debug_form(&span);
        }
    }
}

} // verus!
