//! Client side of the Git smart-transport negotiation: the handshake with its
//! single authentication retry, the arguments of the reference listing, and the
//! mapping of advertised references onto fetch refspecs.
//!
//! Nothing here performs I/O. Every exchange with a transport or a credential
//! helper is described as a step that the caller carries out, handing the
//! outcome back as a plain value.

pub mod byte_str;
pub mod capabilities;
pub mod handshake;
pub mod ls_refs;
pub mod ref_map;
pub mod refs;
pub mod refspec;
