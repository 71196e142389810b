//! A single-user todo list: records, the changes a request can make to the
//! whole collection, and the split of the collection into records done and
//! not done that a page shows.

pub mod laws;
pub mod ops;
pub mod text;
pub mod todo;
pub mod view;
