//! Hoists macro invocations out of the field types of a record or tagged-union
//! declaration into hidden, uniquely named type aliases, each generic over just
//! the parameters that its invocation mentions.
pub mod tokens;
pub mod generics;
pub mod types;
pub mod alias;
pub mod decl;
pub mod trait_list;
pub mod expand;
pub mod laws;

pub use expand::macro_derive;
