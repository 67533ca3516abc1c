pub mod certificate;
pub mod ident;
pub mod laws;
pub mod registry;
