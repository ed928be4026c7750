//! A three-level hierarchy of "allowed language" sets — Site, Community, and
//! User — kept in an in-memory association store, with a cross-level
//! consistency rule: a local Community's allowed languages are narrowed to a
//! subset of the Site's whenever the Site's set changes, and posting-language
//! choices are validated against a Community's set.

pub mod actor_language;
pub mod assoc;
pub mod errors;
pub mod laws;
pub mod newtypes;
pub mod site_view;
pub mod store;
