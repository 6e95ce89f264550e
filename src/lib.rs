//! A repeating-key XOR stream cipher: a cyclic keystream derived from a
//! passphrase, the transform that masks data with it, and the decision steps
//! of a run that drives the transform over a file.
pub mod keystream;
pub mod laws;
pub mod session;
