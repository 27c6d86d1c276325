//! The decision core of a gateway that shows an object store as a file tree.
//!
//! A request path names either an object, whose bytes are served, or a
//! prefix, whose immediate children are listed. The store itself is reached
//! by the caller: this crate says which query to make, what each reply means,
//! and how a raw listing becomes the rows of a directory page.

pub mod listing;
pub mod resolver;
pub mod settings;
pub mod sizes;
