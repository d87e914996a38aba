//! A parent unit that provisions child units at computed addresses and
//! calls into them through stored handles.

pub mod digest;
pub mod host;
pub mod ident;
pub mod laws;
pub mod sub;
pub mod testing;
