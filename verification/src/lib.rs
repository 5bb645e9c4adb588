//! Core decision engine for payment routing.
//!
//! A merchant authors a routing policy (a [`ast::Program`] of guarded
//! [`ast::Rule`]s over the typed vocabulary in [`dir`]). The engine can
//! interpret a program directly against a concrete transaction
//! ([`interpreter`]), or cross-check its rules against a constraint graph of
//! connector-capability facts ([`graph`], [`session`]) to find which
//! configured connectors are valid candidates. Guards are expanded into
//! conjunctive contexts by the state machine in [`expansion`], and a program
//! can be statically analyzed for self-contradictory rules ([`analyzer`]).

pub mod analyzer;
pub mod ast;
pub mod currency;
pub mod dir;
pub mod expansion;
pub mod graph;
pub mod interpreter;
pub mod mandates;
pub mod session;
pub mod text;
