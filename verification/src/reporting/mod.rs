//! What the report writers share with the tracer: their errors, and the
//! lines of a report.

pub mod cobertura;
pub mod html;
