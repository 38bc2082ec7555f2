//! A verified binding generator for a dynamically-typed host runtime with a
//! C-style call protocol.
//!
//! Given a declarative description of native functions, structures, and
//! methods (a [`model::BindingUnit`]), the generator produces a data-driven
//! dispatch table: one [`table::RegistrationEntry`] per exposed entry
//! point, pairing a deterministically derived external name with a
//! self-contained trampoline description ([`table::Action`]).  The
//! trampoline protocol itself — arity check, per-argument type and tag
//! checks, extraction with numeric narrowing, invocation, and return
//! conversion — is implemented and verified in [`protocol`], over an
//! arena-based store of tagged, generation-stamped object handles
//! ([`store`]).

//!
//! Generation is a synchronous, single-pass process; the one piece of
//! shared state, the shadow resolver's lookup facts, is computed once and
//! read-only thereafter.  [`laws`] collects the properties proved of every
//! generated table.

pub mod bytes;
pub mod classify;
pub mod generate;
pub mod laws;
pub mod model;
pub mod naming;
pub mod numeric;
pub mod protocol;
pub mod shadow;
pub mod store;
pub mod table;

