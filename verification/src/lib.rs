//! Watches which window holds input focus, classifies it against a set of
//! regular-expression rules (by window title or by application class), and
//! reports which configured command should run for each rule on every focus
//! change.
//!
//! The crate holds the rule-dispatch engine: splitting a class attribute into
//! its segments, evaluating every rule against the focused window's
//! attributes, and selecting each rule's match or unmatch action. The
//! windowing-system connection and the process spawning live outside, behind
//! the [`backend::Backend`] capability.

pub mod backend;
pub mod pattern;
pub mod rules;
pub mod segments;
