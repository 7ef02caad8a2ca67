//! Decoding of recipe submissions and the storing of recipes, all or nothing.
//!
//! A submission arrives as a sequence of named parts. [`extract`] decodes it
//! into a validated request or turns it down; [`decoding`] proves what
//! decoding does with whole submissions. [`persist`] plans the rows and files
//! of a request under its slug, [`commit`] carries the plan out action by
//! action against a storage that it does not see, and [`store`] proves that
//! every run stores the recipe whole or leaves no row of it.

pub mod commit;
pub mod decoding;
pub mod error;
pub mod extract;
pub mod link;
pub mod models;
pub mod number;
pub mod persist;
pub mod slug;
pub mod store;
pub mod templates;
pub mod text;
pub mod values;
