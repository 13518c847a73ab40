//! The D-Bus service layer between the client and the daemon: identifiers,
//! exchanged data, interface definitions and errors, under the
//! `com.redhat.lightspeed` namespace.
pub mod constants;
pub mod exceptions;
pub mod interfaces;
pub mod structures;
