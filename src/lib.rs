//! Builds the condition, filter, key condition, projection and update
//! expressions of a document store, with every attribute name and literal
//! value replaced by a token, and the maps from those tokens back to the
//! names and values.
//!
//! Paths, values, operands, conditions and update actions form a tree that
//! the caller builds; [`expression::Builder::build`] writes each clause
//! against one shared [`table::Table`], so that a name or value used in two
//! clauses gets one token.
pub mod condition;
pub mod consistency;
pub mod expression;
pub mod key;
pub mod operand;
pub mod path;
pub mod table;
pub mod text;
pub mod update;
pub mod value;

pub use condition::Comparator;
pub use expression::Expression;
pub use path::Path;
pub use value::{
    binary_set, binary_value, bool_value, null_value, num_set, num_value, ref_value, string_set,
    string_value,
};
