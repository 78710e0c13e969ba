//! The sessions of the client: where they are kept, who sees them, how they are
//! shared between accounts and copied from one to another.

pub mod copy;
pub mod copy_laws;
pub mod laws;
pub mod list;
pub mod row_laws;
pub mod share;
pub mod store;
pub mod store_laws;
pub mod table;
