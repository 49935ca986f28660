//! Trace context propagation.
//!
//! The crate creates spans, keeps the span that is current in an execution
//! context, makes every new span a child of the current one, and hands each
//! finished span to a sink exactly once. The same rules serve code that runs
//! to its end on one stack ([`scope`]) and computations that are driven step
//! by step, possibly by another context at every step ([`bind`]).
//!
//! Identifiers are supplied by the caller: nothing here draws one.
pub mod bind;
pub mod capture;
pub mod context;
pub mod report;
pub mod scope;
pub mod sink;
pub mod span;

pub use crate::bind::{Bind, BindView, DetachedSpan, Progress};
pub use crate::capture::Capture;
pub use crate::context::{ActiveContext, CurrentGuard};
pub use crate::report::{LoggingReporter, NopReporter, Report};
pub use crate::scope::{finish, spanned};
pub use crate::sink::{ReporterSink, Sink};
pub use crate::span::{Span, SpanId, SpanView, TraceId};
