//! Correlates IRC identities recorded in a message-log store.
//!
//! A raw `nick!ident@host` mask is split into its components, each component
//! yields a wildcard search pattern (an embedded IPv4 or IPv6 address in the
//! host is detected and, for IPv4, may be generalized to its /24 block), and
//! a depth-bounded fixpoint loop expands a seed identity into the full set of
//! linked sender records.

pub mod engine;
pub mod hostmask;
pub mod ipv4;
pub mod ipv6;
pub mod text;
