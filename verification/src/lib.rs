//! Engine-abstraction boundary and conformance oracle for a transactional
//! table reader.
//!
//! The crate has two tightly coupled halves:
//!
//! * the capability traits ([`client`]) through which a protocol core
//!   delegates every I/O- and compute-heavy operation to a host, and
//! * the conformance oracle ([`oracle`]) that decides whether a host,
//!   exercised through a real scan, reproduces a canonical reference
//!   dataset.
//!
//! Columnar data is modeled by [`batch::DataBatch`]: named, typed columns of
//! plain values.  Row order produced by a scan is not deterministic, so both
//! datasets are brought into a canonical row order ([`canon`]) before they
//! are compared.

pub mod text;
pub mod batch;
pub mod canon;
pub mod client;
pub mod error;
pub mod golden;
pub mod oracle;
pub mod scan;
pub mod schema;
pub mod value;
