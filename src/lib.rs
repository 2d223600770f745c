//! Filtered copying of addon trees into a project.
//!
//! Paths are modelled as sequences of components, the way `Path::components`
//! yields them: an absolute path starts with the root component `"/"`, and
//! every other component is a plain name.
//!
//! - [`path_filter`] decides which paths relative to a source base take part.
//! - [`sync`] decides what to do with each entry met while walking a source tree.
//! - [`addons`] turns a project's addons into one sync each.
//! - [`tree_model`] states what those actions do to a destination tree.

pub mod addons;
pub mod path_filter;
pub mod sync;
pub mod tree_model;
