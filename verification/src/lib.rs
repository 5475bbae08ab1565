//! A small ahead-of-time compiler. The back end holds an intermediate
//! representation, a fixpoint optimization pipeline over it, an x86-64
//! instruction encoder and a code builder that lays the encoded bytes out as
//! a relocatable object. The front end holds the scanner and the macros.

pub mod backend;
pub mod frontend;
pub mod reporter;
pub mod usr;
