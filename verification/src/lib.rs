//! Proofs that a chain of Bitcoin block headers is valid, made by a
//! zero-knowledge virtual machine and believed only after the receipt has
//! been found to be bound to the expected program.
//!
//! The library decides; it performs no input or output itself.
//!
//! * [`packager`] turns a height and header records into the buffer that the
//!   program consumes, and back.
//! * [`registry`] holds the programs and resolves a name or an identity to
//!   one of them.
//! * [`remote`] is the remote proof job as a state machine, over the values
//!   of [`session`] and the locations of [`client`].
//! * [`receipt`] judges a receipt: identity first, committed output second.
//! * [`program`] is what the proven program computes.
//! * [`dispatcher`] ties them together: from a request to a plan, from a
//!   receipt to the text that is printed.
//! * [`error`] names every way in which a job can fail, and [`encoding`]
//!   holds the byte-level encodings that the others share.

pub mod client;
pub mod dispatcher;
pub mod encoding;
pub mod error;
pub mod packager;
pub mod program;
pub mod receipt;
pub mod registry;
pub mod remote;
pub mod session;
