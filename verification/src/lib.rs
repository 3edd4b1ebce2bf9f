//! Bridge session runtime: the verified core of a desktop backend that relays
//! UI requests to a long-running agent service and translates the service's
//! flat, at-least-once event stream into an ordered, exactly-once-per-transition
//! notification stream for the UI.

pub mod assoc;
pub mod chars;
pub mod events;
pub mod history;
pub mod ids;
pub mod laws;
pub mod numbers;
pub mod runtime;
pub mod translate;
pub mod tomlcfg;
pub mod urls;
pub mod workspace;
